//! What holds of a handshake as a whole, of both its sides.

use vstd::prelude::*;

use super::auth::hash_size;
use super::hello::{
    law_patch_keeps_fingerprint, server_hello_in, EXT_ALPN, EXT_KEY_SHARE, EXT_SUPPORTED_VERSIONS, GROUP_X25519,
    HRR_RANDOM,
};
use super::hello_build::{
    entries_wire, entry_wire, message_wire, ordered_extensions, run_wire, server_extension_list, server_share,
    server_versions,
};
use super::hello_laws::{law_server_hello_reads_back, lemma_message_body};
use super::splice::{split_pads_of, whole_pad, DestFlight};
use super::suite::{
    counted, finished_mac, handshake_secret_of, keys_for, opened_record, record_of, CipherKey, RecordError, Suite,
    TrafficKeys, TLS_AES_128_GCM_SHA256,
};
use super::tls_client::{
    ends_with, flight_begins, heard, heard_all, leaf_is_right, settled, ClientFlight, ClientHandshake, ClientPhase,
    ClientStep, Expected, Talk,
};
use super::tls_messages::{
    certificate_verify_wire, certificate_wire, chosen_alpn, encrypted_extensions_wire, law_certificate_roundtrip,
    long_run_wire, message_end, verify_fault, TlsError,
};
use super::tls_server::{
    answered, borrowed_hello, finished_fault, flight_opens, flown, lens_of, messages_of, sent_hello, Asked,
    ServerTalk, ServerWait, OWN_ORDER,
};
use crate::crypto::{x25519_point, x25519_secret};
use crate::wire::{be_bytes, lemma_be_bytes_len};

verus! {

// ---------------------------------------------------------------------------
// The messages
// ---------------------------------------------------------------------------

/// The server takes the Finished message that a client makes with the same
/// secret and the same transcript.
pub proof fn law_client_finished_is_taken(suite: Suite, client_secret: Seq<u8>, hash: Seq<u8>)
    requires
        finished_mac(suite, client_secret, hash).len() == hash_size(suite.wide_hash()),
    ensures
        finished_fault(suite, client_secret, hash, message_wire(20, finished_mac(suite, client_secret, hash))) is None,
{
    let mac = finished_mac(suite, client_secret, hash);
    let msg = message_wire(20, mac);
    lemma_message_body(20, mac);
    assert(msg.take(msg.len() as int) =~= msg);
    lemma_be_bytes_len(mac.len(), 3);
    assert(msg.skip(4) =~= mac);
}

proof fn lemma_first_message(typ: u8, body: Seq<u8>, rest: Seq<u8>)
    requires
        body.len() < 0x100_0000,
    ensures
        ({
            let msg = message_wire(typ, body);
            &&& message_end(msg + rest) == Some(msg.len() as int)
            &&& (msg + rest).take(msg.len() as int) == msg
            &&& (msg + rest).skip(msg.len() as int) == rest
            &&& msg[0] == typ
            &&& msg.len() == 4 + body.len()
        }),
{
    let msg = message_wire(typ, body);
    lemma_message_body(typ, body);
    assert((msg + rest).subrange(1, 4) =~= msg.subrange(1, 4));
    assert((msg + rest).take(msg.len() as int) =~= msg);
    assert((msg + rest).skip(msg.len() as int) =~= rest);
}

/// Hearing a message and what follows it is hearing the message, then the
/// rest.
proof fn lemma_hear_first(want: Expected, talk: Talk, msg: Seq<u8>, rest: Seq<u8>, next: Talk)
    requires
        msg.len() > 0,
        message_end(msg + rest) == Some(msg.len() as int),
        heard(want, talk, msg) == Ok::<Talk, TlsError>(next),
    ensures
        heard_all(want, talk, msg + rest) == heard_all(want, next, rest),
{
    assert((msg + rest).take(msg.len() as int) =~= msg);
    assert((msg + rest).skip(msg.len() as int) =~= rest);
}

proof fn lemma_hear_one(want: Expected, talk: Talk, msg: Seq<u8>, rest: Seq<u8>, next: Talk)
    requires
        msg.len() >= 4,
        message_end(msg + rest) == Some(msg.len() as int),
        heard(want, talk, msg) == Ok::<Talk, TlsError>(next),
    ensures
        heard_all(want, talk, msg) == Ok::<(Talk, Seq<u8>), TlsError>((next, Seq::<u8>::empty())),
{
    let none = Seq::<u8>::empty();
    assert((msg + rest).subrange(1, 4) =~= msg.subrange(1, 4));
    assert(msg + none =~= msg);
    assert(message_end(msg) == Some(msg.len() as int));
    lemma_hear_first(want, talk, msg, none, next);
    assert(message_end(none) is None);
}

/// Whether a client hears the server's four messages one by one, to the end.
pub open spec fn heard_apart(talk: ServerTalk, der: Seq<u8>, signature: Seq<u8>, want: Expected) -> bool {
    let m = messages_of(talk, der, signature);
    let none = Seq::<u8>::empty();
    let t0 = Talk { said: talk.said(), leaf: None, finished: false };
    let t1 = Talk { said: t0.said + m.extensions, ..t0 };
    let t2 = Talk { said: t1.said + m.certificate, leaf: Some(der), finished: false };
    let t3 = Talk { said: t2.said + m.verify, ..t2 };
    let t4 = Talk { said: talk.said() + m.joined(), leaf: Some(der), finished: true };
    &&& heard_all(want, t0, m.extensions) == Ok::<(Talk, Seq<u8>), TlsError>((t1, none))
    &&& heard_all(want, t1, m.certificate) == Ok::<(Talk, Seq<u8>), TlsError>((t2, none))
    &&& heard_all(want, t2, m.verify) == Ok::<(Talk, Seq<u8>), TlsError>((t3, none))
    &&& heard_all(want, t3, m.finished) == Ok::<(Talk, Seq<u8>), TlsError>((t4, none))
}

/// A client that derived the same secret hears the server's four messages to
/// the end, together or one by one: where it takes the leaf, and where its
/// signature fits.
#[verifier::spinoff_prover]
#[verifier::rlimit(60)]
pub proof fn law_flight_is_heard(talk: ServerTalk, der: Seq<u8>, signature: Seq<u8>, want: Expected)
    requires
        want.suite == talk.suite(),
        want.server_secret == talk.server_secret(),
        leaf_is_right(want, der),
        verify_fault(
            der,
            certificate_verify_wire(signature),
            talk.suite().digest(talk.said() + encrypted_extensions_wire(talk.alpn()) + certificate_wire(der)),
        ) is None,
        der.len() + 9 < 0x100_0000,
        signature.len() < 0x1_0000,
        encrypted_extensions_wire(talk.alpn()).len() < 0x100_0000,
        messages_of(talk, der, signature).finished.len() == 4 + hash_size(talk.suite().wide_hash()),
    ensures
        heard_all(
            want,
            Talk { said: talk.said(), leaf: None, finished: false },
            messages_of(talk, der, signature).joined(),
        ) == Ok::<(Talk, Seq<u8>), TlsError>(
            (
                Talk { said: talk.said() + messages_of(talk, der, signature).joined(), leaf: Some(der), finished: true },
                Seq::<u8>::empty(),
            ),
        ),
        heard_apart(talk, der, signature, want),
{
    let m = messages_of(talk, der, signature);
    let none = Seq::<u8>::empty();
    let t0 = Talk { said: talk.said(), leaf: None, finished: false };
    let t1 = Talk { said: t0.said + m.extensions, ..t0 };
    let t2 = Talk { said: t1.said + m.certificate, leaf: Some(der), finished: false };
    let t3 = Talk { said: t2.said + m.verify, ..t2 };
    let t4 = Talk { said: t3.said + m.finished, leaf: Some(der), finished: true };
    let r3 = m.finished;
    let r2 = m.verify + r3;
    let r1 = m.certificate + r2;
    assert(m.joined() =~= m.extensions + r1);
    assert(r3 =~= m.finished + none);
    assert(message_end(m.extensions + r1) == Some(m.extensions.len() as int) && heard(want, t0, m.extensions) == Ok::<
        Talk,
        TlsError,
    >(t1)) by {
        lemma_extensions_body(talk.alpn());
        let body = choose|body: Seq<u8>| m.extensions == #[trigger] message_wire(8, body) && body.len() < 0x100_0000;
        lemma_first_message(8, body, r1);
    }
    lemma_hear_first(want, t0, m.extensions, r1, t1);
    assert(message_end(r1) == Some(m.certificate.len() as int) && heard(want, t1, m.certificate) == Ok::<
        Talk,
        TlsError,
    >(t2)) by {
        law_certificate_roundtrip(der);
        let entry = long_run_wire(der) + seq![0u8, 0];
        lemma_be_bytes_len(der.len(), 3);
        lemma_be_bytes_len(entry.len(), 3);
        lemma_first_message(11, seq![0u8] + long_run_wire(entry), r2);
    }
    lemma_hear_first(want, t1, m.certificate, r2, t2);
    assert(message_end(r2) == Some(m.verify.len() as int) && heard(want, t2, m.verify) == Ok::<Talk, TlsError>(
        t3,
    )) by {
        lemma_be_bytes_len(signature.len(), 2);
        lemma_first_message(15, seq![8u8, 7] + run_wire(signature), r3);
    }
    lemma_hear_first(want, t2, m.verify, r3, t3);
    assert(message_end(r3) == Some(m.finished.len() as int) && heard(want, t3, m.finished) == Ok::<Talk, TlsError>(
        t4,
    )) by {
        let mac = finished_mac(talk.suite(), talk.server_secret(), talk.suite().digest(t3.said));
        lemma_be_bytes_len(mac.len(), 3);
        lemma_first_message(20, mac, none);
        assert(m.finished.skip(4) =~= mac);
    }
    lemma_hear_first(want, t3, m.finished, none, t4);
    assert(t4.said =~= talk.said() + m.joined());
    lemma_hear_one(want, t0, m.extensions, r1, t1);
    lemma_hear_one(want, t1, m.certificate, r2, t2);
    lemma_hear_one(want, t2, m.verify, r3, t3);
}

proof fn lemma_extensions_body(alpn: Seq<Seq<u8>>)
    requires
        encrypted_extensions_wire(alpn).len() < 0x100_0000,
    ensures
        exists|body: Seq<u8>|
            encrypted_extensions_wire(alpn) == #[trigger] message_wire(8, body) && body.len() < 0x100_0000,
{
    let body = match chosen_alpn(alpn) {
        Some(name) => run_wire(entry_wire(EXT_ALPN as nat, run_wire(be_bytes(name.len(), 1) + name))),
        None => seq![0u8, 0],
    };
    assert(encrypted_extensions_wire(alpn) == message_wire(8, body));
    lemma_be_bytes_len(body.len(), 3);
}

// ---------------------------------------------------------------------------
// Both sides
// ---------------------------------------------------------------------------

/// Whether client and server have the same secrets, and the same keys for
/// what the client sends.
pub open spec fn agree(flight: ClientFlight, talk: ServerTalk) -> bool {
    &&& flight.suite() == talk.suite()
    &&& flight.secret() == talk.secret()
    &&& flight.client_secret() == talk.client_secret()
    &&& flight.server_secret() == talk.server_secret()
    &&& flight.client_keys() == talk.client_keys()
}

proof fn lemma_same_keys(a: TrafficKeys, b: TrafficKeys, suite: Suite, secret: Seq<u8>)
    requires
        keys_for(a, suite, secret),
        keys_for(b, suite, secret),
    ensures
        a == b,
{
    assert(a.iv =~= b.iv);
    match (a.key, b.key) {
        (CipherKey::Aes128(x), CipherKey::Aes128(y)) => {
            assert(x =~= y);
        },
        (CipherKey::Aes256(x), CipherKey::Aes256(y)) => {
            assert(x =~= y);
        },
        (CipherKey::ChaCha20(x), CipherKey::ChaCha20(y)) => {
            assert(x =~= y);
        },
        _ => {},
    }
}

/// Whether no two extensions of a ServerHello are key shares.
pub open spec fn one_key_share(extensions: Seq<nat>) -> bool {
    forall|i: int, j: int|
        0 <= i < extensions.len() && 0 <= j < extensions.len() && #[trigger] extensions[i] == EXT_KEY_SHARE
            && #[trigger] extensions[j] == EXT_KEY_SHARE ==> i == j
}

/// The ServerHello shows a client the server's key and a suite: a borrowed
/// one where it has one key share, one of the server's own unless its random
/// bytes are those of a HelloRetryRequest.
pub proof fn law_hello_shows_key(dest_hello: Option<Seq<u8>>, random: Seq<u8>, session_id: Seq<u8>, public: Seq<u8>)
    requires
        public.len() == 32,
        random.len() == 32,
        random != HRR_RANDOM@,
        session_id.len() <= 255,
        borrowed_hello(dest_hello, public) is Some ==> one_key_share(server_hello_in(dest_hello->0)->0.extensions),
    ensures
        settled(sent_hello(dest_hello, random, session_id, public)) matches Ok((suite, key)) && key == public,
{
    if borrowed_hello(dest_hello, public) is Some {
        law_patch_keeps_fingerprint(dest_hello->0, public);
    } else {
        let order = OWN_ORDER@;
        lemma_own_extensions(public);
        law_server_hello_reads_back(random, session_id, TLS_AES_128_GCM_SHA256, public, order);
    }
}

proof fn lemma_own_extensions(public: Seq<u8>)
    requires
        public.len() == 32,
    ensures
        entries_wire(server_extension_list(public, OWN_ORDER@)).len() < 0x1_0000,
{
    let order = OWN_ORDER@;
    assert(order[0] == EXT_SUPPORTED_VERSIONS && order[1] == EXT_KEY_SHARE);
    assert(order.contains(EXT_SUPPORTED_VERSIONS) && order.contains(EXT_KEY_SHARE));
    reveal_with_fuel(ordered_extensions, 3);
    reveal_with_fuel(entries_wire, 3);
    let list = server_extension_list(public, order);
    assert(list =~= seq![server_versions(), server_share(public)]);
    assert(list.drop_last() =~= seq![server_versions()]);
    assert(list.drop_last().drop_last() =~= Seq::<(nat, Seq<u8>)>::empty());
    assert(list.last() == server_share(public));
    assert(list.drop_last().last() == server_versions());
    lemma_be_bytes_len(0x0304, 2);
    lemma_entry_len(server_versions().0, server_versions().1);
    lemma_entry_len(GROUP_X25519 as nat, public);
    lemma_entry_len(server_share(public).0, server_share(public).1);
}

proof fn lemma_entry_len(typ: nat, data: Seq<u8>)
    ensures
        entry_wire(typ, data).len() == 4 + data.len(),
{
    lemma_be_bytes_len(typ, 2);
    lemma_be_bytes_len(data.len(), 2);
}

/// After the hellos both sides have the same secrets and keys, and remember
/// the same messages: where the ServerHello shows the server's key, and where
/// the two keys agree on one secret.
pub proof fn law_hellos_agree(
    flight: ClientFlight,
    talk: ServerTalk,
    asked: Asked,
    client: Seq<u8>,
    server: Seq<u8>,
    random: Seq<u8>,
    dest_hello: Option<Seq<u8>>,
    out: Seq<u8>,
)
    requires
        answered(talk, out, asked, server, random, dest_hello),
        ({
            let msg = sent_hello(dest_hello, random, asked.session_id, x25519_point(server));
            &&& flight_begins(flight, client, asked.hello, msg)
            &&& settled(msg) == Ok::<(Suite, Seq<u8>), TlsError>((talk.suite(), x25519_point(server)))
        }),
        handshake_secret_of(talk.suite(), x25519_secret(client, x25519_point(server))) == talk.secret(),
    ensures
        agree(flight, talk),
        flight.server_keys() == talk.server_keys(),
        flight.talk() == (Talk { said: talk.said(), leaf: None, finished: false }),
{
    lemma_same_keys(flight.client_keys(), talk.client_keys(), talk.suite(), talk.client_secret());
    lemma_same_keys(flight.server_keys(), talk.server_keys(), talk.suite(), talk.server_secret());
}

/// Whether the client takes the server's leaf and its signature, and the
/// lengths in the messages fit their fields.
pub open spec fn flight_fits(talk: ServerTalk, der: Seq<u8>, signature: Seq<u8>, want: Expected) -> bool {
    &&& leaf_is_right(want, der)
    &&& verify_fault(
        der,
        certificate_verify_wire(signature),
        talk.suite().digest(talk.said() + encrypted_extensions_wire(talk.alpn()) + certificate_wire(der)),
    ) is None
    &&& der.len() + 9 < 0x100_0000
    &&& signature.len() < 0x1_0000
    &&& encrypted_extensions_wire(talk.alpn()).len() < 0x100_0000
    &&& messages_of(talk, der, signature).finished.len() == 4 + hash_size(talk.suite().wide_hash())
}

/// A client that agrees with the server and takes its leaf ends its handshake
/// with the one record of the server's flight.
pub proof fn law_flight_in_one_record(
    before: ClientHandshake,
    flight: ClientFlight,
    talk: ServerTalk,
    der: Seq<u8>,
    signature: Seq<u8>,
    lens: Option<Seq<usize>>,
    step: Result<ClientStep, TlsError>,
    after: ClientHandshake,
)
    requires
        agree(flight, talk),
        flight.server_keys() == talk.server_keys(),
        flight.talk() == (Talk { said: talk.said(), leaf: None, finished: false }),
        flight.buf() == Seq::<u8>::empty(),
        flight_fits(talk, der, signature, before.expected(flight)),
        flight_opens(talk.server_keys(), messages_of(talk, der, signature), lens),
        lens matches Some(lens) ==> split_pads_of(lens) is None,
        ({
            let pad = match lens {
                Some(lens) => whole_pad(lens),
                None => None,
            };
            let record = record_of(talk.server_keys(), 0x16, messages_of(talk, der, signature).joined(), pad);
            ClientHandshake::flight_step(before, flight, 0x17, record.skip(5), step, after)
        }),
    ensures
        step matches Ok(ClientStep::Done { out, send, recv }) && ends_with(
            flight,
            talk.said() + messages_of(talk, der, signature).joined(),
            out@,
            send,
            recv,
        ),
{
    let m = messages_of(talk, der, signature);
    law_flight_is_heard(talk, der, signature, before.expected(flight));
    assert(Seq::<u8>::empty() + m.joined() =~= m.joined());
}

/// As [`law_flight_in_one_record`], where the flight comes in four records.
pub proof fn law_flight_in_four_records(
    at: Seq<ClientHandshake>,
    flights: Seq<ClientFlight>,
    talk: ServerTalk,
    der: Seq<u8>,
    signature: Seq<u8>,
    lens: Seq<usize>,
    steps: Seq<Result<ClientStep, TlsError>>,
)
    requires
        at.len() == 5,
        flights.len() == 4,
        steps.len() == 4,
        split_pads_of(lens) is Some,
        agree(flights[0], talk),
        flights[0].server_keys() == talk.server_keys(),
        flights[0].talk() == (Talk { said: talk.said(), leaf: None, finished: false }),
        flights[0].buf() == Seq::<u8>::empty(),
        flight_fits(talk, der, signature, at[0].expected(flights[0])),
        flight_opens(talk.server_keys(), messages_of(talk, der, signature), Some(lens)),
        forall|i: int| 0 <= i < 4 ==> (#[trigger] at[i]).phase() == ClientPhase::Flight(flights[i]),
        forall|i: int| 0 <= i < 5 ==> (#[trigger] at[i]).auth_key() == at[0].auth_key() && at[i].pin() == at[0].pin(),
        ({
            let m = messages_of(talk, der, signature);
            let pads = split_pads_of(lens)->0;
            let k0 = talk.server_keys();
            let k1 = counted(k0);
            let k2 = counted(k1);
            let k3 = counted(k2);
            let r0 = record_of(k0, 0x16, m.extensions, pads[0]).skip(5);
            let r1 = record_of(k1, 0x16, m.certificate, pads[1]).skip(5);
            let r2 = record_of(k2, 0x16, m.verify, pads[2]).skip(5);
            let r3 = record_of(k3, 0x16, m.finished, pads[3]).skip(5);
            &&& ClientHandshake::flight_step(at[0], flights[0], 0x17, r0, steps[0], at[1])
            &&& ClientHandshake::flight_step(at[1], flights[1], 0x17, r1, steps[1], at[2])
            &&& ClientHandshake::flight_step(at[2], flights[2], 0x17, r2, steps[2], at[3])
            &&& ClientHandshake::flight_step(at[3], flights[3], 0x17, r3, steps[3], at[4])
        }),
    ensures
        steps[3] matches Ok(ClientStep::Done { out, send, recv }) && ends_with(
            flights[0],
            talk.said() + messages_of(talk, der, signature).joined(),
            out@,
            send,
            recv,
        ),
{
    let m = messages_of(talk, der, signature);
    let none = Seq::<u8>::empty();
    law_flight_is_heard(talk, der, signature, at[0].expected(flights[0]));
    assert(none + m.extensions =~= m.extensions);
    assert(none + m.certificate =~= m.certificate);
    assert(none + m.verify =~= m.verify);
    assert(none + m.finished =~= m.finished);
    assert(at[1].phase() == ClientPhase::Flight(flights[1]));
    assert(at[1].expected(flights[1]) == at[0].expected(flights[0]));
    assert(at[2].phase() == ClientPhase::Flight(flights[2]));
    assert(at[2].expected(flights[2]) == at[0].expected(flights[0]));
    assert(at[3].phase() == ClientPhase::Flight(flights[3]));
    assert(at[3].expected(flights[3]) == at[0].expected(flights[0]));
}

/// At the end of the handshake each side reads with the keys that the other
/// writes with, and the server takes the client's last record: it opens to
/// the Finished message that the server waits for.
pub proof fn law_handshake_ends(
    flight: ClientFlight,
    talk: ServerTalk,
    der: Seq<u8>,
    signature: Seq<u8>,
    dest: Option<&DestFlight>,
    sent: Seq<u8>,
    wait: ServerWait,
    fresh: TrafficKeys,
    last: Seq<u8>,
    send: TrafficKeys,
    recv: TrafficKeys,
)
    requires
        agree(flight, talk),
        flown(talk, der, signature, dest, sent, wait, fresh),
        ends_with(flight, talk.said() + messages_of(talk, der, signature).joined(), last, send, recv),
        finished_mac(wait.suite(), wait.client_secret(), wait.hash()).len() == hash_size(wait.suite().wide_hash()),
    ensures
        send == wait.recv(),
        recv == fresh,
        opened_record(wait.client_keys(), last.skip(11)) matches Ok((inner, content)) && inner == 0x16 && finished_fault(
            wait.suite(),
            wait.client_secret(),
            wait.hash(),
            content,
        ) is None,
{
    let hash = talk.suite().digest(talk.said() + messages_of(talk, der, signature).joined());
    let secrets = super::suite::application_secrets(talk.suite(), talk.secret(), hash);
    lemma_same_keys(send, wait.recv(), talk.suite(), secrets.0);
    lemma_same_keys(recv, fresh, talk.suite(), secrets.1);
    law_client_finished_is_taken(wait.suite(), wait.client_secret(), wait.hash());
}

} // verus!
