//! The server's side of the handshake. The ServerHello is that of the site
//! where there is one, with another key; record sizes follow the site's.

use vstd::prelude::*;

use super::auth::{ct_eq, hash_size, x25519_public, x25519_shared};
use super::cert::{leaf_signature, HmacLeaf, LeafError};
use super::hello::{
    byte_views, client_hello_in, handshake_in, overwritten, patch_server_hello_x25519, server_hello_in,
    server_key_place, ClientHelloView, ServerHelloView,
};
use super::hello_build::{
    build_server_hello_handshake, handshake_msg, hello_record, message_wire, record_of_hello, server_hello_body,
};
use super::record_detect::CCS;
use super::splice::{extra_pads_of, split_pads_of, whole_pad, DestFlight};
use super::suite::{
    application_secrets, application_traffic_keys, counted, derived_secret, finished_mac, finished_verify,
    handshake_secret_of, handshake_traffic_keys, keys_for, opened_record, record_of, HsKeys, Suite, TrafficKeys,
    Transcript, LABEL_CLIENT_HANDSHAKE, LABEL_SERVER_HANDSHAKE, TLS_AES_128_GCM_SHA256,
};
use super::tls_messages::{
    certificate_msg, certificate_verify_msg, certificate_verify_wire, certificate_wire, encrypted_extensions_msg,
    encrypted_extensions_wire, message_end, plain_record, record_opens, seal_message, signed_content, split_handshake,
    tls_record, too_long, TlsError,
};
use crate::crypto::{x25519_point, x25519_secret, AEAD_LIMIT};

verus! {

// ---------------------------------------------------------------------------
// The hellos
// ---------------------------------------------------------------------------

/// The site's ServerHello with another key, where that can be done.
pub open spec fn borrowed_hello(dest_hello: Option<Seq<u8>>, public: Seq<u8>) -> Option<Seq<u8>> {
    match dest_hello {
        None => None,
        Some(raw) => match server_hello_in(raw) {
            None => None,
            Some(view) => if Suite::of_id(view.cipher) is None {
                None
            } else {
                match server_key_place(raw) {
                    None => None,
                    Some(place) => Some(overwritten(raw, place, public)),
                }
            },
        },
    }
}

/// The order of the extensions in a ServerHello of our own.
pub const OWN_ORDER: [u16; 2] = [43, 51];

/// The ServerHello that is sent.
pub open spec fn sent_hello(
    dest_hello: Option<Seq<u8>>,
    random: Seq<u8>,
    session_id: Seq<u8>,
    public: Seq<u8>,
) -> Seq<u8> {
    match borrowed_hello(dest_hello, public) {
        Some(hello) => hello,
        None => message_wire(
            2,
            server_hello_body(random, session_id, TLS_AES_128_GCM_SHA256, public, OWN_ORDER@),
        ),
    }
}

fn dest_server_hello(dest_hello: Option<&[u8]>, public: &[u8; 32]) -> (hello: Option<Vec<u8>>)
    ensures
        ({
            let raw = match dest_hello {
                Some(raw) => Some(raw@),
                None => None,
            };
            match hello {
                Some(hello) => borrowed_hello(raw, public@) == Some(hello@),
                None => borrowed_hello(raw, public@) is None,
            }
        }),
{
    let raw = match dest_hello {
        Some(raw) => raw,
        None => return None,
    };
    let view = match ServerHelloView::parse(raw) {
        Some(view) => view,
        None => return None,
    };
    if Suite::from_id(view.cipher).is_none() {
        return None;
    }
    let mut patched = vstd::slice::slice_to_vec(raw);
    if patch_server_hello_x25519(patched.as_mut_slice(), public) {
        Some(patched)
    } else {
        None
    }
}

/// What a client asks for in its first record: its message, its key, its
/// session id and its protocols.
pub ghost struct Asked {
    pub hello: Seq<u8>,
    pub key: Seq<u8>,
    pub session_id: Seq<u8>,
    pub alpn: Seq<Seq<u8>>,
}

pub open spec fn asked_in(typ: u8, body: Seq<u8>) -> Result<Asked, TlsError> {
    if typ != 0x16 {
        Err(TlsError::NoClientHelloRecord)
    } else if handshake_in(hello_record(body)) is None || client_hello_in(handshake_in(hello_record(body))->0) is None {
        Err(TlsError::BadClientHello)
    } else {
        let view = client_hello_in(handshake_in(hello_record(body))->0)->0;
        match view.x25519_public {
            None => Err(TlsError::NoClientKey),
            Some(key) => match message_end(body) {
                None => Err(TlsError::TruncatedClientHello),
                Some(end) => if body[0] != 1 || end != body.len() {
                    Err(TlsError::NotOneClientHello)
                } else {
                    Ok(Asked { hello: body, key, session_id: view.session_id, alpn: view.alpn })
                },
            },
        }
    }
}

/// The server after the hellos.
pub struct ServerTalk {
    suite: Suite,
    transcript: Transcript,
    client: HsKeys,
    server: HsKeys,
    secret: Vec<u8>,
    alpn: Vec<Vec<u8>>,
}

impl ServerTalk {
    pub closed spec fn suite(&self) -> Suite {
        self.suite
    }

    pub closed spec fn said(&self) -> Seq<u8> {
        self.transcript.said()
    }

    pub closed spec fn secret(&self) -> Seq<u8> {
        self.secret@
    }

    pub closed spec fn client_secret(&self) -> Seq<u8> {
        self.client.secret@
    }

    pub closed spec fn server_secret(&self) -> Seq<u8> {
        self.server.secret@
    }

    pub closed spec fn client_keys(&self) -> TrafficKeys {
        self.client.keys
    }

    pub closed spec fn server_keys(&self) -> TrafficKeys {
        self.server.keys
    }

    pub closed spec fn alpn(&self) -> Seq<Seq<u8>> {
        byte_views(self.alpn@)
    }

    pub closed spec fn wf(&self) -> bool {
        self.transcript.suite() == self.suite
    }
}

/// The server's answer to a ClientHello.
pub open spec fn answered(
    talk: ServerTalk,
    out: Seq<u8>,
    asked: Asked,
    private: Seq<u8>,
    random: Seq<u8>,
    dest_hello: Option<Seq<u8>>,
) -> bool {
    let public = x25519_point(private);
    let msg = sent_hello(dest_hello, random, asked.session_id, public);
    let said = asked.hello + msg;
    &&& server_hello_in(msg) matches Some(view)
    &&& Suite::of_id(view.cipher) matches Some(suite)
    &&& out == plain_record(0x16, msg) + CCS@
    &&& talk.wf()
    &&& talk.suite() == suite
    &&& talk.said() == said
    &&& talk.alpn() == asked.alpn
    &&& talk.secret() == handshake_secret_of(suite, x25519_secret(private, asked.key))
    &&& talk.client_secret() == derived_secret(suite, talk.secret(), LABEL_CLIENT_HANDSHAKE@, suite.digest(said))
    &&& talk.server_secret() == derived_secret(suite, talk.secret(), LABEL_SERVER_HANDSHAKE@, suite.digest(said))
    &&& keys_for(talk.client_keys(), suite, talk.client_secret())
    &&& keys_for(talk.server_keys(), suite, talk.server_secret())
}

/// Answers the client's first record: what to send, and the talk after it.
///
/// A client whose key is in its hello derives the same secret from the
/// server's.
pub fn answer_hello(
    typ: u8,
    body: &[u8],
    private: &[u8; 32],
    random: &[u8; 32],
    dest_hello: Option<&[u8]>,
) -> (out: Result<(ServerTalk, Vec<u8>), TlsError>)
    ensures
        ({
            let raw = match dest_hello {
                Some(raw) => Some(raw@),
                None => None,
            };
            match asked_in(typ, body@) {
                Err(error) => out == Err::<(ServerTalk, Vec<u8>), TlsError>(error),
                Ok(asked) => {
                    let msg = sent_hello(raw, random@, asked.session_id, x25519_point(private@));
                    match out {
                        Ok((talk, out)) => {
                            &&& answered(talk, out@, asked, private@, random@, raw)
                            &&& forall|client: Seq<u8>|
                                client.len() == 32 && #[trigger] x25519_point(client) == asked.key
                                    ==> handshake_secret_of(
                                    talk.suite(),
                                    x25519_secret(client, x25519_point(private@)),
                                ) == talk.secret()
                        },
                        Err(error) => match server_hello_in(msg) {
                            None => error == TlsError::BadServerHello,
                            Some(view) => Suite::of_id(view.cipher) is None && error == TlsError::UnsupportedCipher,
                        },
                    }
                },
            }
        }),
{
    if typ != 0x16 {
        return Err(TlsError::NoClientHelloRecord);
    }
    let record = record_of_hello(body);
    let view = match ClientHelloView::parse(&record) {
        Some(view) => view,
        None => return Err(TlsError::BadClientHello),
    };
    let peer = match view.x25519_public {
        Some(peer) => peer,
        None => return Err(TlsError::NoClientKey),
    };
    let (hello, rest) = match split_handshake(body) {
        Some(parts) => parts,
        None => return Err(TlsError::TruncatedClientHello),
    };
    if hello[0] != 1 || rest.len() != 0 {
        return Err(TlsError::NotOneClientHello);
    }
    assert(hello@ =~= body@);
    let public = x25519_public(private);
    let msg = match dest_server_hello(dest_hello, &public) {
        Some(msg) => msg,
        None => {
            let order = OWN_ORDER;
            build_server_hello_handshake(random, &view.session_id, TLS_AES_128_GCM_SHA256, &public, &order)
        },
    };
    let answer = match ServerHelloView::parse(&msg) {
        Some(answer) => answer,
        None => return Err(TlsError::BadServerHello),
    };
    let suite = match Suite::from_id(answer.cipher) {
        Some(suite) => suite,
        None => return Err(TlsError::UnsupportedCipher),
    };
    let mut transcript = Transcript::new(suite);
    transcript.update(&hello);
    transcript.update(&msg);
    assert(transcript.said() =~= hello@ + msg@);
    let ccs = CCS;
    let mut out = tls_record(0x16, &msg);
    let ghost first = out@;
    out.extend_from_slice(&ccs);
    assert(out@ =~= first + CCS@);
    let shared = x25519_shared(private, &peer);
    let hash = transcript.hash();
    let (client, server, secret) = handshake_traffic_keys(suite, &shared, &hash);
    let alpn = view.alpn;
    Ok((ServerTalk { suite, transcript, client, server, secret, alpn }, out))
}

// ---------------------------------------------------------------------------
// The flight
// ---------------------------------------------------------------------------

/// Records without meaning, of the given sizes: what they add to the output,
/// and the keys after them. Sizes that no record has are left out.
pub open spec fn dummies(keys: TrafficKeys, sizes: Seq<usize>) -> (Seq<u8>, TrafficKeys)
    decreases sizes.len(),
{
    if sizes.len() == 0 {
        (Seq::empty(), keys)
    } else {
        let (out, keys) = dummies(keys, sizes.drop_last());
        if sizes.last() < 23 {
            (out, keys)
        } else {
            (out + record_of(keys, 0x16, seq![4u8], Some(sizes.last())), counted(keys))
        }
    }
}

fn push_dummies(out: &mut Vec<u8>, keys: &mut TrafficKeys, sizes: &[usize])
    requires
        forall|i: int| 0 <= i < sizes@.len() ==> (#[trigger] sizes@[i]) <= AEAD_LIMIT,
    ensures
        final(out)@ == old(out)@ + dummies(*old(keys), sizes@).0,
        *final(keys) == dummies(*old(keys), sizes@).1,
{
    let ghost start = out@;
    let ghost first = *keys;
    let ticket: [u8; 1] = [4];
    assert(ticket@ =~= seq![4u8]);
    let mut i: usize = 0;
    assert(sizes@.take(0) =~= Seq::empty());
    assert(out@ =~= start + dummies(first, sizes@.take(0)).0);
    while i < sizes.len()
        invariant
            i <= sizes.len(),
            ticket@ == seq![4u8],
            forall|i: int| 0 <= i < sizes@.len() ==> (#[trigger] sizes@[i]) <= AEAD_LIMIT,
            out@ == start + dummies(first, sizes@.take(i as int)).0,
            *keys == dummies(first, sizes@.take(i as int)).1,
        decreases sizes.len() - i,
    {
        let size: usize = sizes[i];
        assert(sizes@.take(i + 1).drop_last() =~= sizes@.take(i as int));
        if size >= 23 {
            let record = keys.encrypt_padded(0x16, &ticket, Some(size));
            out.extend_from_slice(&record);
        }
        assert(out@ =~= start + dummies(first, sizes@.take(i + 1)).0);
        i = i + 1;
    }
    assert(sizes@.take(i as int) =~= sizes@);
}

/// The four messages of the flight, for a leaf and its signature.
pub ghost struct Messages {
    pub extensions: Seq<u8>,
    pub certificate: Seq<u8>,
    pub verify: Seq<u8>,
    pub finished: Seq<u8>,
}

impl Messages {
    pub open spec fn joined(self) -> Seq<u8> {
        self.extensions + self.certificate + self.verify + self.finished
    }

    pub open spec fn fit(self) -> bool {
        &&& !too_long(self.extensions.len())
        &&& !too_long(self.certificate.len())
        &&& !too_long(self.verify.len())
        &&& !too_long(self.finished.len())
    }
}

/// What the server signs in its CertificateVerify message.
pub open spec fn to_sign(talk: ServerTalk, der: Seq<u8>) -> Seq<u8> {
    signed_content(
        talk.suite().digest(talk.said() + encrypted_extensions_wire(talk.alpn()) + certificate_wire(der)),
    )
}

pub open spec fn messages_of(talk: ServerTalk, der: Seq<u8>, signature: Seq<u8>) -> Messages {
    let extensions = encrypted_extensions_wire(talk.alpn());
    let certificate = certificate_wire(der);
    let verify = certificate_verify_wire(signature);
    let said = talk.said() + extensions + certificate + verify;
    let finished = message_wire(20, finished_mac(talk.suite(), talk.server_secret(), talk.suite().digest(said)));
    Messages { extensions, certificate, verify, finished }
}

/// How the messages are sealed: apart, where the site sent them apart, else
/// in one record.
pub open spec fn sealed_flight(keys: TrafficKeys, m: Messages, lens: Option<Seq<usize>>) -> Option<Seq<u8>> {
    let pads = match lens {
        Some(lens) => split_pads_of(lens),
        None => None,
    };
    match pads {
        Some(pads) => if m.fit() {
            let k1 = counted(keys);
            let k2 = counted(k1);
            let k3 = counted(k2);
            Some(
                record_of(keys, 0x16, m.extensions, pads[0]) + record_of(k1, 0x16, m.certificate, pads[1]) + record_of(
                    k2,
                    0x16,
                    m.verify,
                    pads[2],
                ) + record_of(k3, 0x16, m.finished, pads[3]),
            )
        } else {
            None
        },
        None => if too_long(m.joined().len()) {
            None
        } else {
            Some(
                record_of(
                    keys,
                    0x16,
                    m.joined(),
                    match lens {
                        Some(lens) => whole_pad(lens),
                        None => None,
                    },
                ),
            )
        },
    }
}

/// Whether the records of a flight open to its messages, with the keys that
/// sealed them.
pub open spec fn flight_opens(keys: TrafficKeys, m: Messages, lens: Option<Seq<usize>>) -> bool {
    let pads = match lens {
        Some(lens) => split_pads_of(lens),
        None => None,
    };
    match pads {
        Some(pads) => {
            let k1 = counted(keys);
            let k2 = counted(k1);
            let k3 = counted(k2);
            &&& record_opens(keys, record_of(keys, 0x16, m.extensions, pads[0]), m.extensions)
            &&& record_opens(k1, record_of(k1, 0x16, m.certificate, pads[1]), m.certificate)
            &&& record_opens(k2, record_of(k2, 0x16, m.verify, pads[2]), m.verify)
            &&& record_opens(k3, record_of(k3, 0x16, m.finished, pads[3]), m.finished)
        },
        None => {
            let pad = match lens {
                Some(lens) => whole_pad(lens),
                None => None,
            };
            record_opens(keys, record_of(keys, 0x16, m.joined(), pad), m.joined())
        },
    }
}

pub open spec fn lens_of(dest: Option<&DestFlight>) -> Option<Seq<usize>> {
    match dest {
        Some(dest) => Some(dest.encrypted_record_lens@),
        None => None,
    }
}

pub open spec fn extra_of(dest: Option<&DestFlight>) -> Seq<usize> {
    match dest {
        Some(dest) => extra_pads_of(dest.encrypted_record_lens@),
        None => Seq::empty(),
    }
}

pub open spec fn post_of(dest: Option<&DestFlight>) -> Seq<usize> {
    match dest {
        Some(dest) => dest.post_handshake_lens@,
        None => Seq::empty(),
    }
}

/// The server while it waits for the client's Finished.
pub struct ServerWait {
    suite: Suite,
    client: HsKeys,
    hash: Vec<u8>,
    send: TrafficKeys,
    recv: TrafficKeys,
    post: Vec<usize>,
}

impl ServerWait {
    pub closed spec fn suite(&self) -> Suite {
        self.suite
    }

    pub closed spec fn client_secret(&self) -> Seq<u8> {
        self.client.secret@
    }

    pub closed spec fn client_keys(&self) -> TrafficKeys {
        self.client.keys
    }

    /// The hash of what was said, the server's Finished included.
    pub closed spec fn hash(&self) -> Seq<u8> {
        self.hash@
    }

    pub closed spec fn send(&self) -> TrafficKeys {
        self.send
    }

    pub closed spec fn recv(&self) -> TrafficKeys {
        self.recv
    }

    pub closed spec fn post(&self) -> Seq<usize> {
        self.post@
    }

    pub open spec fn wf(&self) -> bool {
        forall|i: int| 0 <= i < self.post().len() ==> (#[trigger] self.post()[i]) <= AEAD_LIMIT
    }
}

/// The server's flight for a signature, and how it waits then. `fresh` are
/// its application keys before the first record.
pub open spec fn flown(
    talk: ServerTalk,
    der: Seq<u8>,
    signature: Seq<u8>,
    dest: Option<&DestFlight>,
    out: Seq<u8>,
    wait: ServerWait,
    fresh: TrafficKeys,
) -> bool {
    let m = messages_of(talk, der, signature);
    let hash = talk.suite().digest(talk.said() + m.joined());
    let secrets = application_secrets(talk.suite(), talk.secret(), hash);
    let (extra, send) = dummies(fresh, extra_of(dest));
    &&& sealed_flight(talk.server_keys(), m, lens_of(dest)) matches Some(records)
    &&& flight_opens(talk.server_keys(), m, lens_of(dest))
    &&& out == records + extra
    &&& keys_for(fresh, talk.suite(), secrets.1)
    &&& keys_for(wait.recv(), talk.suite(), secrets.0)
    &&& wait.send() == send
    &&& wait.suite() == talk.suite()
    &&& wait.client_secret() == talk.client_secret()
    &&& wait.client_keys() == talk.client_keys()
    &&& wait.hash() == hash
    &&& wait.post() == post_of(dest)
    &&& wait.wf()
}

pub open spec fn flies(
    talk: ServerTalk,
    der: Seq<u8>,
    signature: Seq<u8>,
    dest: Option<&DestFlight>,
    out: Seq<u8>,
    wait: ServerWait,
) -> bool {
    exists|fresh: TrafficKeys| #[trigger] flown(talk, der, signature, dest, out, wait, fresh)
}

fn copy_sizes(sizes: &[usize]) -> (out: Vec<usize>)
    ensures
        out@ == sizes@,
{
    vstd::slice::slice_to_vec(sizes)
}

impl ServerTalk {
    /// Seals the messages.
    fn seal_flight(
        &mut self,
        ee: &[u8],
        cert: &[u8],
        cv: &[u8],
        fin: &[u8],
        dest: Option<&DestFlight>,
    ) -> (out: Result<Vec<u8>, TlsError>)
        requires
            dest matches Some(dest) ==> dest.sizes_fit(),
        ensures
            ({
                let m = Messages { extensions: ee@, certificate: cert@, verify: cv@, finished: fin@ };
                match out {
                    Ok(out) => sealed_flight(old(self).server_keys(), m, lens_of(dest)) == Some(out@) && flight_opens(
                        old(self).server_keys(),
                        m,
                        lens_of(dest),
                    ),
                    Err(error) => sealed_flight(old(self).server_keys(), m, lens_of(dest)) is None && error
                        == TlsError::TooLong,
                }
            }),
            final(self).secret() == old(self).secret(),
            final(self).suite() == old(self).suite(),
            final(self).said() == old(self).said(),
            final(self).client_secret() == old(self).client_secret(),
            final(self).client_keys() == old(self).client_keys(),
            final(self).wf() == old(self).wf(),
    {
        let ghost m = Messages { extensions: ee@, certificate: cert@, verify: cv@, finished: fin@ };
        let pads = match dest {
            Some(dest) => dest.split_pads(),
            None => None,
        };
        match pads {
            Some(pads) => {
                proof {
                    let lens = lens_of(dest)->0;
                    assert(pads@ == split_pads_of(lens)->0);
                    assert(pads@[0] == split_pads_of(lens)->0[0]);
                    assert(pads@[1] == split_pads_of(lens)->0[1]);
                    assert(pads@[2] == split_pads_of(lens)->0[2]);
                    assert(pads@[3] == split_pads_of(lens)->0[3]);
                }
                let mut out = match seal_message(&mut self.server.keys, ee, pads[0]) {
                    Ok(record) => record,
                    Err(error) => return Err(error),
                };
                let ghost r0 = out@;
                let r1 = match seal_message(&mut self.server.keys, cert, pads[1]) {
                    Ok(record) => record,
                    Err(error) => return Err(error),
                };
                let r2 = match seal_message(&mut self.server.keys, cv, pads[2]) {
                    Ok(record) => record,
                    Err(error) => return Err(error),
                };
                let r3 = match seal_message(&mut self.server.keys, fin, pads[3]) {
                    Ok(record) => record,
                    Err(error) => return Err(error),
                };
                out.extend_from_slice(&r1);
                out.extend_from_slice(&r2);
                out.extend_from_slice(&r3);
                assert(out@ =~= r0 + r1@ + r2@ + r3@);
                Ok(out)
            },
            None => {
                let mut flight: Vec<u8> = Vec::new();
                flight.extend_from_slice(ee);
                flight.extend_from_slice(cert);
                flight.extend_from_slice(cv);
                flight.extend_from_slice(fin);
                assert(flight@ =~= m.joined());
                let pad = match dest {
                    Some(dest) => dest.handshake_pad(),
                    None => None,
                };
                seal_message(&mut self.server.keys, &flight, pad)
            },
        }
    }

    /// The server's flight: EncryptedExtensions to Finished, then records
    /// like those that the site sends after its own.
    pub fn flight(self, leaf: &HmacLeaf, dest: Option<&DestFlight>) -> (out: Result<(ServerWait, Vec<u8>), TlsError>)
        requires
            self.wf(),
            dest matches Some(dest) ==> dest.sizes_fit(),
        ensures
            match leaf_signature(leaf.key@, to_sign(self, leaf.der@)) {
                None => out == Err::<(ServerWait, Vec<u8>), TlsError>(TlsError::Leaf(LeafError::Signature)),
                Some(signature) => match out {
                    Ok((wait, out)) => flies(self, leaf.der@, signature, dest, out@, wait),
                    Err(error) => sealed_flight(
                        self.server_keys(),
                        messages_of(self, leaf.der@, signature),
                        lens_of(dest),
                    ) is None && error == TlsError::TooLong,
                },
            },
    {
        let ghost start = self;
        let mut talk = self;
        let ee = encrypted_extensions_msg(&talk.alpn);
        talk.transcript.update(&ee);
        let cert = certificate_msg(&leaf.der);
        talk.transcript.update(&cert);
        let hash = talk.transcript.hash();
        let cv = match certificate_verify_msg(leaf, &hash) {
            Ok(cv) => cv,
            Err(error) => return Err(TlsError::Leaf(error)),
        };
        let ghost signature = leaf_signature(leaf.key@, to_sign(start, leaf.der@))->0;
        talk.transcript.update(&cv);
        let hash = talk.transcript.hash();
        let mac = finished_verify(talk.suite, &talk.server.secret, &hash);
        let fin = handshake_msg(20, &mac);
        talk.transcript.update(&fin);
        let ghost m = messages_of(start, leaf.der@, signature);
        proof {
            assert(ee@ == m.extensions && cert@ == m.certificate && cv@ == m.verify && fin@ == m.finished);
            assert(talk.transcript.said() =~= start.said() + m.joined());
        }
        let mut out = match talk.seal_flight(&ee, &cert, &cv, &fin, dest) {
            Ok(out) => out,
            Err(error) => return Err(error),
        };
        let hash = talk.transcript.hash();
        let (recv, fresh) = application_traffic_keys(talk.suite, &talk.secret, &hash);
        let mut send = fresh;
        let mut post: Vec<usize> = Vec::new();
        let ghost records = out@;
        match dest {
            Some(dest) => {
                let extra = dest.extra_pads();
                push_dummies(&mut out, &mut send, extra);
                post = copy_sizes(dest.post_handshake_pads());
            },
            None => {
                assert(out@ =~= records + dummies(fresh, Seq::empty()).0);
            },
        }
        let wait = ServerWait { suite: talk.suite, client: talk.client, hash, send, recv, post };
        assert(wait.post() =~= post_of(dest));
        assert(wait.wf());
        assert(flown(start, leaf.der@, signature, dest, out@, wait, fresh));
        Ok((wait, out))
    }
}

// ---------------------------------------------------------------------------
// The client's Finished
// ---------------------------------------------------------------------------

/// What to do after a record.
pub enum ServerStep {
    /// Read another record.
    More,
    /// Send `out`; the connection is up.
    Done { out: Vec<u8>, send: TrafficKeys, recv: TrafficKeys },
}

/// What is wrong with the text of the client's last record.
pub open spec fn finished_fault(
    suite: Suite,
    client_secret: Seq<u8>,
    hash: Seq<u8>,
    content: Seq<u8>,
) -> Option<TlsError> {
    match message_end(content) {
        None => Some(TlsError::TruncatedFinished),
        Some(end) => {
            let msg = content.take(end);
            if msg[0] != 20 || msg.len() < 4 + hash_size(suite.wide_hash()) {
                Some(TlsError::NoFinished)
            } else if msg.skip(4) != finished_mac(suite, client_secret, hash) {
                Some(TlsError::WrongClientFinished)
            } else {
                None
            }
        },
    }
}

impl ServerWait {
    /// Takes the next record from the client.
    pub fn on_record(&mut self, typ: u8, body: &[u8]) -> (step: Result<ServerStep, TlsError>)
        requires
            old(self).wf(),
        ensures
            if typ == 0x14 {
                step matches Ok(ServerStep::More) && *final(self) == *old(self)
            } else if typ != 0x17 {
                step == Err::<ServerStep, TlsError>(TlsError::RecordAfterHello(typ))
            } else {
                match opened_record(old(self).client_keys(), body@) {
                    Err(error) => step == Err::<ServerStep, TlsError>(TlsError::Record(error)),
                    Ok((inner, content)) => if inner != 0x16 {
                        step == Err::<ServerStep, TlsError>(TlsError::NoClientHandshake)
                    } else {
                        match finished_fault(old(self).suite(), old(self).client_secret(), old(self).hash(), content) {
                            Some(error) => step == Err::<ServerStep, TlsError>(error),
                            None => step matches Ok(ServerStep::Done { out, send, recv }) && (out@, send) == dummies(
                                old(self).send(),
                                old(self).post(),
                            ) && recv == old(self).recv(),
                        }
                    },
                }
            },
    {
        if typ == 0x14 {
            return Ok(ServerStep::More);
        }
        if typ != 0x17 {
            return Err(TlsError::RecordAfterHello(typ));
        }
        let (inner, content) = match self.client.keys.decrypt(body) {
            Ok(opened) => opened,
            Err(error) => return Err(TlsError::Record(error)),
        };
        if inner != 0x16 {
            return Err(TlsError::NoClientHandshake);
        }
        let msg = match split_handshake(&content) {
            Some((msg, _)) => msg,
            None => return Err(TlsError::TruncatedFinished),
        };
        if msg[0] != 20 || msg.len() < 4 + self.suite.hash_len() {
            return Err(TlsError::NoFinished);
        }
        let mac = finished_verify(self.suite, &self.client.secret, &self.hash);
        let claimed = vstd::slice::slice_subrange(&msg, 4, msg.len());
        assert(claimed@ =~= msg@.skip(4));
        if !ct_eq(claimed, &mac) {
            return Err(TlsError::WrongClientFinished);
        }
        let mut out: Vec<u8> = Vec::new();
        let mut send = self.send;
        assert(self.post@ == old(self).post());
        assert forall|i: int| 0 <= i < self.post@.len() implies (#[trigger] self.post@[i]) <= AEAD_LIMIT by {
            assert(old(self).post()[i] <= AEAD_LIMIT);
        }
        push_dummies(&mut out, &mut send, &self.post);
        assert(out@ =~= dummies(self.send, self.post@).0);
        Ok(ServerStep::Done { out, send, recv: self.recv })
    }
}

} // verus!
