//! What is read from any hello, whoever wrote it.

use vstd::prelude::*;

use super::config::{dest_host, RealityConfigError, RealityServerConfig};
use super::hello::{
    client_hello_in, first_share, handshake_from_record, last_of, parse_handshake, protocols, x25519_in,
    ClientHelloParts, ClientHelloView,
};
use super::hello_build::{entries_wire, message_wire, names_wire, run_wire};
use super::hello_laws::{entries_fit, lemma_entries_roundtrip, lemma_entries_wire_head, lemma_message_body, lemma_run};
use crate::text::{first_place, last_place, trim};
use crate::text_laws::{lemma_first_place, lemma_last_place};
use crate::wire::{be_bytes, lemma_be_bytes_len, lemma_be_range, lemma_value_of_bytes};

verus! {

/// A ClientHello with any fields and extensions.
pub open spec fn any_client_hello(
    random: Seq<u8>,
    session_id: Seq<u8>,
    suites: Seq<u8>,
    compression: Seq<u8>,
    list: Seq<(nat, Seq<u8>)>,
) -> Seq<u8> {
    message_wire(
        1,
        seq![3u8, 3] + random + seq![session_id.len() as u8] + session_id + run_wire(suites) + seq![
            compression.len() as u8,
        ] + compression + run_wire(entries_wire(list)),
    )
}

proof fn lemma_one_byte(n: nat)
    requires
        n < 256,
    ensures
        be_bytes(n, 1) == seq![n as u8],
{
    reveal_with_fuel(be_bytes, 2);
    assert(be_bytes(n, 1) =~= seq![n as u8]);
}

#[verifier::spinoff_prover]
#[verifier::rlimit(40)]
proof fn lemma_any_hello(
    random: Seq<u8>,
    session_id: Seq<u8>,
    suites: Seq<u8>,
    compression: Seq<u8>,
    list: Seq<(nat, Seq<u8>)>,
)
    requires
        random.len() == 32,
        session_id.len() < 256,
        suites.len() < 0x1_0000,
        0 < compression.len() < 256,
        entries_fit(list),
        entries_wire(list).len() < 0x1_0000,
    ensures
        client_hello_in(any_client_hello(random, session_id, suites, compression, list)) == Some(
            ClientHelloParts {
                random,
                session_id,
                sni: super::hello::sni_of(last_of(list, 0)),
                x25519_public: super::hello::share_of(last_of(list, 51)),
                alpn: super::hello::alpn_of(last_of(list, 16)),
            },
        ),
{
    let ext = entries_wire(list);
    let body = seq![3u8, 3] + random + seq![session_id.len() as u8] + session_id + run_wire(suites) + seq![
        compression.len() as u8,
    ] + compression + run_wire(ext);
    lemma_be_range();
    lemma_one_byte(session_id.len());
    lemma_one_byte(compression.len());
    lemma_be_bytes_len(suites.len(), 2);
    lemma_be_bytes_len(ext.len(), 2);
    lemma_message_body(1, body);
    lemma_entries_roundtrip(list);
    let a = 35 + session_id.len() as int;
    let b = a + 2 + suites.len();
    let c = b + 1 + compression.len();
    assert(body.subrange(34, 35) =~= be_bytes(session_id.len(), 1));
    assert(body.subrange(35, a) =~= session_id);
    lemma_run(body, 34, session_id, 1);
    assert(body.subrange(a, a + 2) =~= be_bytes(suites.len(), 2));
    assert(body.subrange(a + 2, b) =~= suites);
    lemma_run(body, a, suites, 2);
    assert(body.subrange(b, b + 1) =~= be_bytes(compression.len(), 1));
    assert(body.subrange(b + 1, c) =~= compression);
    lemma_run(body, b, compression, 1);
    assert(body.subrange(c, c + 2) =~= be_bytes(ext.len(), 2));
    assert(body.subrange(c + 2, c + 2 + ext.len()) =~= ext);
    lemma_run(body, c, ext, 2);
    assert(body.subrange(2, 34) =~= random);
}

proof fn lemma_last_of(list: Seq<(nat, Seq<u8>)>, k: int, typ: nat)
    requires
        0 <= k < list.len(),
        list[k].0 == typ,
        forall|j: int| k < j < list.len() ==> (#[trigger] list[j]).0 != typ,
    ensures
        last_of(list, typ) == Some(list[k].1),
    decreases list.len(),
{
    if k < list.len() - 1 {
        assert(list[list.len() - 1].0 != typ);
        let t = list.drop_last();
        assert forall|j: int| k < j < t.len() implies (#[trigger] t[j]).0 != typ by {
            assert(t[j] == list[j]);
        }
        lemma_last_of(t, k, typ);
    }
}

proof fn lemma_none_of(list: Seq<(nat, Seq<u8>)>, typ: nat)
    requires
        forall|j: int| 0 <= j < list.len() ==> (#[trigger] list[j]).0 != typ,
    ensures
        last_of(list, typ) is None,
    decreases list.len(),
{
    if list.len() > 0 {
        let t = list.drop_last();
        assert(list[list.len() - 1].0 != typ);
        assert forall|j: int| 0 <= j < t.len() implies (#[trigger] t[j]).0 != typ by {
            assert(t[j] == list[j]);
        }
        lemma_none_of(t, typ);
    }
}

proof fn lemma_sni_read(name: Seq<u8>, more: Seq<u8>)
    requires
        name.len() + 3 + more.len() < 0x1_0000,
    ensures
        super::hello::sni_bytes(run_wire(seq![0u8] + run_wire(name) + more)) == Some(name),
{
    let list = seq![0u8] + run_wire(name) + more;
    let data = run_wire(list);
    lemma_be_range();
    lemma_be_bytes_len(name.len(), 2);
    lemma_be_bytes_len(list.len(), 2);
    assert(data.subrange(0, 2) =~= be_bytes(list.len(), 2));
    assert(data.subrange(2, 2 + list.len() as int) =~= list);
    lemma_run(data, 0, list, 2);
    assert(list.subrange(1, 3) =~= be_bytes(name.len(), 2));
    assert(list.subrange(3, 3 + name.len() as int) =~= name);
    lemma_run(list, 1, name, 2);
}

proof fn lemma_names_head(names: Seq<Seq<u8>>)
    requires
        names.len() > 0,
    ensures
        names_wire(names) == be_bytes(names[0].len(), 1) + names[0] + names_wire(names.skip(1)),
    decreases names.len(),
{
    let tail = names.skip(1);
    if names.len() == 1 {
        assert(names.drop_last() =~= Seq::<Seq<u8>>::empty());
        assert(tail =~= Seq::<Seq<u8>>::empty());
        assert(names_wire(names) =~= be_bytes(names[0].len(), 1) + names[0] + names_wire(tail));
    } else {
        lemma_names_head(names.drop_last());
        assert(names.drop_last().skip(1) =~= tail.drop_last());
        assert(tail.last() == names.last());
        assert(names_wire(names) =~= be_bytes(names[0].len(), 1) + names[0] + names_wire(tail));
    }
}

proof fn lemma_protocols(names: Seq<Seq<u8>>)
    requires
        forall|i: int| 0 <= i < names.len() ==> (#[trigger] names[i]).len() < 256,
    ensures
        protocols(names_wire(names)) == names,
    decreases names.len(),
{
    if names.len() == 0 {
        assert(protocols(names_wire(names)) =~= names);
    } else {
        let tail = names.skip(1);
        assert forall|i: int| 0 <= i < tail.len() implies (#[trigger] tail[i]).len() < 256 by {
            assert(tail[i] == names[i + 1]);
        }
        lemma_protocols(tail);
        lemma_names_head(names);
        let s = names_wire(names);
        let n = names[0].len();
        lemma_be_bytes_len(n, 1);
        lemma_be_range();
        assert(s.subrange(0, 1) =~= be_bytes(n, 1));
        assert(s.subrange(1, 1 + n as int) =~= names[0]);
        lemma_run(s, 0, names[0], 1);
        assert(s.skip(1 + n as int) =~= names_wire(tail));
        assert(protocols(s) =~= names);
    }
}

proof fn lemma_first_share(shares: Seq<(nat, Seq<u8>)>, k: int)
    requires
        entries_fit(shares),
        0 <= k < shares.len(),
        forall|j: int| 0 <= j < k ==> x25519_in((#[trigger] shares[j]).0, shares[j].1) is None,
        x25519_in(shares[k].0, shares[k].1) is Some,
    ensures
        first_share(entries_wire(shares)) == x25519_in(shares[k].0, shares[k].1),
    decreases shares.len(),
{
    let tail = shares.skip(1);
    let e = shares[0];
    lemma_entries_wire_head(shares);
    let s = entries_wire(shares);
    let n = e.1.len();
    lemma_be_bytes_len(e.0, 2);
    lemma_be_bytes_len(n, 2);
    lemma_be_range();
    lemma_value_of_bytes(e.0, 2);
    assert(s.subrange(0, 2) =~= be_bytes(e.0, 2));
    assert(s.subrange(2, 4) =~= be_bytes(n, 2));
    assert(s.subrange(4, 4 + n as int) =~= e.1);
    lemma_run(s, 2, e.1, 2);
    assert(s.skip(4 + n as int) =~= entries_wire(tail));
    if k > 0 {
        assert forall|j: int| 0 <= j < k - 1 implies x25519_in((#[trigger] tail[j]).0, tail[j].1) is None by {
            assert(tail[j] == shares[j + 1]);
        }
        assert forall|i: int| 0 <= i < tail.len() implies (#[trigger] tail[i]).0 < 0x1_0000 && tail[i].1.len()
            < 0x1_0000 by {
            assert(tail[i] == shares[i + 1]);
        }
        lemma_first_share(tail, k - 1);
        assert(tail[k - 1] == shares[k]);
    }
}

/// Whatever fields and extensions a ClientHello has, its random bytes and its
/// session id are read; of two extensions of a type the last counts.
pub proof fn law_hello_is_read(
    hello: &[u8],
    view: Option<ClientHelloView>,
    random: Seq<u8>,
    session_id: Seq<u8>,
    suites: Seq<u8>,
    compression: Seq<u8>,
    list: Seq<(nat, Seq<u8>)>,
)
    requires
        call_ensures(parse_handshake, (hello,), view),
        random.len() == 32,
        session_id.len() < 256,
        suites.len() < 0x1_0000,
        0 < compression.len() < 256,
        entries_fit(list),
        entries_wire(list).len() < 0x1_0000,
        hello@ == any_client_hello(random, session_id, suites, compression, list),
    ensures
        view matches Some(view) && view.random@ == random && view.session_id@ == session_id && {
            &&& (forall|j: int| 0 <= j < list.len() ==> (#[trigger] list[j]).0 != 0) ==> view.sni is None
            &&& (forall|j: int| 0 <= j < list.len() ==> (#[trigger] list[j]).0 != 51) ==> view.x25519_public is None
            &&& (forall|j: int| 0 <= j < list.len() ==> (#[trigger] list[j]).0 != 16) ==> view.alpn@.len() == 0
        },
{
    lemma_any_hello(random, session_id, suites, compression, list);
    if forall|j: int| 0 <= j < list.len() ==> (#[trigger] list[j]).0 != 0 {
        lemma_none_of(list, 0);
    }
    if forall|j: int| 0 <= j < list.len() ==> (#[trigger] list[j]).0 != 51 {
        lemma_none_of(list, 51);
    }
    if forall|j: int| 0 <= j < list.len() ==> (#[trigger] list[j]).0 != 16 {
        lemma_none_of(list, 16);
    }
    if let Some(view) = view {
        assert(super::hello::byte_views(view.alpn@).len() == view.alpn@.len());
    }
}

/// The name in a hello is the first of its list, where that is text.
pub proof fn law_name_is_read(
    hello: &[u8],
    view: Option<ClientHelloView>,
    random: Seq<u8>,
    session_id: Seq<u8>,
    suites: Seq<u8>,
    compression: Seq<u8>,
    list: Seq<(nat, Seq<u8>)>,
    k: int,
    name: Seq<u8>,
    more: Seq<u8>,
)
    requires
        call_ensures(parse_handshake, (hello,), view),
        random.len() == 32,
        session_id.len() < 256,
        suites.len() < 0x1_0000,
        0 < compression.len() < 256,
        entries_fit(list),
        entries_wire(list).len() < 0x1_0000,
        hello@ == any_client_hello(random, session_id, suites, compression, list),
        0 <= k < list.len(),
        list[k].0 == 0,
        forall|j: int| k < j < list.len() ==> (#[trigger] list[j]).0 != 0,
        list[k].1 == run_wire(seq![0u8] + run_wire(name) + more),
        name.len() + 3 + more.len() < 0x1_0000,
    ensures
        vstd::utf8::valid_utf8(name) ==> (view matches Some(view) && (view.sni matches Some(sni)
            && vstd::utf8::encode_utf8(sni@) == name)),
        !vstd::utf8::valid_utf8(name) ==> (view matches Some(view) && view.sni is None),
{
    lemma_any_hello(random, session_id, suites, compression, list);
    lemma_last_of(list, k, 0);
    lemma_sni_read(name, more);
    if vstd::utf8::valid_utf8(name) {
        vstd::utf8::decode_utf8_encode_utf8(name);
    }
}

/// The protocols in a hello are those of its list, in their order.
pub proof fn law_protocols_are_read(
    hello: &[u8],
    view: Option<ClientHelloView>,
    random: Seq<u8>,
    session_id: Seq<u8>,
    suites: Seq<u8>,
    compression: Seq<u8>,
    list: Seq<(nat, Seq<u8>)>,
    k: int,
    names: Seq<Seq<u8>>,
    i: int,
)
    requires
        call_ensures(parse_handshake, (hello,), view),
        random.len() == 32,
        session_id.len() < 256,
        suites.len() < 0x1_0000,
        0 < compression.len() < 256,
        entries_fit(list),
        entries_wire(list).len() < 0x1_0000,
        hello@ == any_client_hello(random, session_id, suites, compression, list),
        0 <= k < list.len(),
        list[k].0 == 16,
        forall|j: int| k < j < list.len() ==> (#[trigger] list[j]).0 != 16,
        list[k].1 == run_wire(names_wire(names)),
        names_wire(names).len() < 0x1_0000,
        forall|j: int| 0 <= j < names.len() ==> (#[trigger] names[j]).len() < 256,
    ensures
        view matches Some(view) && view.alpn@.len() == names.len() && (0 <= i < names.len() ==> view.alpn@[i]@
            == names[i]),
{
    lemma_any_hello(random, session_id, suites, compression, list);
    lemma_last_of(list, k, 16);
    let inner = names_wire(names);
    let data = run_wire(inner);
    lemma_be_range();
    lemma_be_bytes_len(inner.len(), 2);
    assert(data.subrange(0, 2) =~= be_bytes(inner.len(), 2));
    assert(data.subrange(2, 2 + inner.len() as int) =~= inner);
    lemma_run(data, 0, inner, 2);
    lemma_protocols(names);
    if let Some(view) = view {
        let views = super::hello::byte_views(view.alpn@);
        assert(views == names);
        assert(views.len() == view.alpn@.len());
        if 0 <= i < names.len() {
            assert(views[i] == view.alpn@[i]@);
        }
    }
}

/// The key in a hello is the first of its shares that has one: an X25519 share
/// of 32 bytes, or the last 32 bytes of a hybrid one.
pub proof fn law_share_is_read(
    hello: &[u8],
    view: Option<ClientHelloView>,
    random: Seq<u8>,
    session_id: Seq<u8>,
    suites: Seq<u8>,
    compression: Seq<u8>,
    list: Seq<(nat, Seq<u8>)>,
    k: int,
    shares: Seq<(nat, Seq<u8>)>,
    at: int,
    before: Seq<u8>,
    key: Seq<u8>,
)
    requires
        call_ensures(parse_handshake, (hello,), view),
        random.len() == 32,
        session_id.len() < 256,
        suites.len() < 0x1_0000,
        0 < compression.len() < 256,
        entries_fit(list),
        entries_wire(list).len() < 0x1_0000,
        hello@ == any_client_hello(random, session_id, suites, compression, list),
        0 <= k < list.len(),
        list[k].0 == 51,
        forall|j: int| k < j < list.len() ==> (#[trigger] list[j]).0 != 51,
        list[k].1 == run_wire(entries_wire(shares)),
        entries_fit(shares),
        entries_wire(shares).len() < 0x1_0000,
        0 <= at < shares.len(),
        forall|j: int| 0 <= j < at ==> (#[trigger] shares[j]).0 != 0x1d && shares[j].0 != 0x11ec,
        key.len() == 32,
        shares[at] == (0x1dnat, key) || shares[at] == (0x11ecnat, before + key),
    ensures
        view matches Some(view) && (view.x25519_public matches Some(found) && found@ == key),
{
    lemma_any_hello(random, session_id, suites, compression, list);
    lemma_last_of(list, k, 51);
    let inner = entries_wire(shares);
    let data = run_wire(inner);
    lemma_be_range();
    lemma_be_bytes_len(inner.len(), 2);
    assert(data.subrange(0, 2) =~= be_bytes(inner.len(), 2));
    assert(data.subrange(2, 2 + inner.len() as int) =~= inner);
    lemma_run(data, 0, inner, 2);
    assert((before + key).skip((before + key).len() - 32) =~= key);
    assert(x25519_in(shares[at].0, shares[at].1) == Some(key));
    lemma_first_share(shares, at);
}

/// A handshake record is 0x16, any version, a length, and the message; what
/// follows it does not count.
pub proof fn law_record_is_read(record: &[u8], msg: Option<&[u8]>, a: u8, b: u8, body: Seq<u8>, more: Seq<u8>)
    requires
        call_ensures(handshake_from_record, (record,), msg),
    ensures
        record@.len() < 5 || record@[0] != 0x16 ==> msg is None,
        body.len() < 0x1_0000 && record@ == seq![0x16u8, a, b] + run_wire(body) + more ==> (msg matches Some(msg)
            && msg@ == body),
{
    if body.len() < 0x1_0000 && record@ == seq![0x16u8, a, b] + run_wire(body) + more {
        lemma_be_range();
        lemma_be_bytes_len(body.len(), 2);
        assert(record@.subrange(3, 5) =~= be_bytes(body.len(), 2));
        assert(record@.subrange(5, 5 + body.len() as int) =~= body);
        lemma_run(record@, 3, body, 2);
    }
}

/// The host of the site is what stands before the last colon, or between
/// brackets, or all of it.
pub proof fn law_site_host(dest: &str, host: Result<String, RealityConfigError>, name: Seq<char>, port: Seq<char>)
    requires
        call_ensures(dest_host, (dest,), host),
    ensures
        trim(dest@).len() == 0 ==> host is Err,
        trim(dest@) == name.push(':') + port && name.len() > 0 && name[0] != '[' && !port.contains(':') ==> (
        host matches Ok(host) && host@ == name),
        trim(dest@) == seq!['['] + name.push(']') + port && !name.contains(']') ==> (host matches Ok(host) && host@
            == name),
        trim(dest@).len() > 0 && trim(dest@)[0] == '[' && !trim(dest@).contains(']') ==> host is Err,
        trim(dest@) == name && name.len() > 0 && name[0] != '[' && !name.contains(':') ==> (host matches Ok(host)
            && host@ == name),
{
    let a = trim(dest@);
    if a == name.push(':') + port && name.len() > 0 && name[0] != '[' && !port.contains(':') {
        lemma_last_place(a, ':');
        assert(a[name.len() as int] == ':');
        let at = last_place(a, ':')->0;
        if at > name.len() {
            assert(a[at] == port[at - name.len() - 1]);
            assert(port.contains(port[at - name.len() - 1]));
        }
        assert(a.take(at) =~= name);
        assert(a[0] == name[0]);
    }
    if a == seq!['['] + name.push(']') + port && !name.contains(']') {
        let rest = a.skip(1);
        assert(rest =~= name.push(']') + port);
        lemma_first_place(rest, ']');
        assert(rest[name.len() as int] == ']');
        let end = first_place(rest, ']')->0;
        if end < name.len() {
            assert(name.contains(name[end]));
        }
        assert(rest.take(end) =~= name);
    }
    if a.len() > 0 && a[0] == '[' && !a.contains(']') {
        let rest = a.skip(1);
        lemma_first_place(rest, ']');
        if let Some(end) = first_place(rest, ']') {
            assert(a[end + 1] == ']');
        }
    }
    if a == name && name.len() > 0 && !name.contains(':') {
        lemma_last_place(a, ':');
        if let Some(at) = last_place(a, ':') {
            assert(name[at] == ':');
        }
    }
}

/// The random bytes of a HelloRetryRequest.
pub proof fn law_retry_mark()
    ensures
        super::hello::HRR_RANDOM@ == seq![
            0xCFu8,
            0x21,
            0xAD,
            0x74,
            0xE5,
            0x9A,
            0x61,
            0x11,
            0xBE,
            0x1D,
            0x8C,
            0x02,
            0x1E,
            0x65,
            0xB8,
            0x91,
            0xC2,
            0xA2,
            0x11,
            0x16,
            0x7A,
            0xBB,
            0x8C,
            0x5E,
            0x07,
            0x9E,
            0x09,
            0xE2,
            0xC8,
            0xA8,
            0x33,
            0x9C,
        ],
{
    let mark = super::hello::HRR_RANDOM;
    assert(mark@ =~= seq![
        0xCFu8,
        0x21,
        0xAD,
        0x74,
        0xE5,
        0x9A,
        0x61,
        0x11,
        0xBE,
        0x1D,
        0x8C,
        0x02,
        0x1E,
        0x65,
        0xB8,
        0x91,
        0xC2,
        0xA2,
        0x11,
        0x16,
        0x7A,
        0xBB,
        0x8C,
        0x5E,
        0x07,
        0x9E,
        0x09,
        0xE2,
        0xC8,
        0xA8,
        0x33,
        0x9C,
    ]);
}

/// A ServerHello with the random bytes of a HelloRetryRequest is none.
pub proof fn law_retry_is_no_hello(random: Seq<u8>, session_id: Seq<u8>, cipher: u16, public: Seq<u8>, order: Seq<u16>)
    requires
        random == super::hello::HRR_RANDOM@,
        session_id.len() < 256,
        entries_wire(super::hello_build::server_extension_list(public, order)).len() < 0x1_0000,
    ensures
        super::hello::server_hello_in(
            message_wire(2, super::hello_build::server_hello_body(random, session_id, cipher, public, order)),
        ) is None,
{
    let extensions = entries_wire(super::hello_build::server_extension_list(public, order));
    let body = super::hello_build::server_hello_body(random, session_id, cipher, public, order);
    lemma_be_bytes_len(session_id.len(), 1);
    lemma_be_bytes_len(cipher as nat, 2);
    lemma_be_bytes_len(extensions.len(), 2);
    assert(random.len() == 32);
    assert(body.len() == 2 + 32 + 1 + session_id.len() + 2 + 1 + 2 + extensions.len());
    lemma_message_body(2, body);
    assert(body.subrange(2, 34) =~= random);
}

/// Each sort of client has the sizes that were measured for it; the site is
/// measured under the first name that the server goes by.
pub proof fn law_measured_sizes(
    config: &RealityServerConfig,
    class: u8,
    lens: Vec<usize>,
    usual: Vec<usize>,
    name: String,
)
    requires
        call_ensures(RealityServerConfig::post_handshake_lens_for, (config, class), lens),
        call_ensures(RealityServerConfig::post_handshake_lens, (config,), usual),
        call_ensures(RealityServerConfig::probe_name, (config,), name),
    ensures
        class == 0 ==> lens@ == config.post_handshake@[0]@,
        class == 1 ==> lens@ == config.post_handshake@[1]@,
        class >= 2 ==> lens@ == config.post_handshake@[2]@ && usual@ == lens@,
        config.server_names@.len() > 0 ==> name@ == config.server_names@[0]@,
{
}

} // verus!
