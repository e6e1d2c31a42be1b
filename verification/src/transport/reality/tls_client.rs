//! The client's side of the handshake, record by record. The caller moves
//! bytes; what they mean is decided here.

use vstd::prelude::*;

use super::auth::{
    auth_key_of, blanked, ct_eq, reality_auth_key, seal_session_id, session_id_plain, session_id_wire, x25519_public,
    x25519_shared,
};
use super::cert::{hmac_fits, verify_hmac_certificate};
use super::config::{
    authenticated, name_passes, short_id_known, time_fits, RealityClientConfig, RealityServerConfig, CLIENT_VERSION,
};
use super::hello::{server_hello_in, ServerHelloView};
use super::hello_build::{
    client_hello_handshake, client_hello_wire, draw_noise, handshake_msg, hello_record, message_wire, record_of_hello,
    HelloNoise, LONGEST_NAMELESS_HELLO,
};
use super::hello_laws::{client_parts, law_session_id_place, lemma_client_hello, lemma_hello_record};
use super::hello_shape::hello_len;
use super::record_detect::CCS;
use super::suite::{
    application_secrets, application_traffic_keys, counted, derived_secret, finished_mac, finished_verify,
    handshake_secret_of, handshake_traffic_keys, keys_for, opened_record, record_of, HsKeys, RecordError, Suite,
    TrafficKeys, Transcript, LABEL_CLIENT_HANDSHAKE, LABEL_SERVER_HANDSHAKE,
};
use super::tls_messages::{
    certificate_in, message_end, parse_certificate, split_handshake, verify_certificate_verify, verify_fault, TlsError,
};
use crate::clock::unix_seconds;
use crate::crypto::{aes256_seal, x25519_point, x25519_secret, AEAD_LIMIT};
use crate::random::os_random_array;
use crate::wire::{be_bytes, lemma_be_bytes_len, lemma_be_range, lemma_value_of_bytes, same_bytes};

verus! {

// ---------------------------------------------------------------------------
// What the client makes of the server's messages
// ---------------------------------------------------------------------------

/// How far the talk has come.
pub ghost struct Talk {
    pub said: Seq<u8>,
    pub leaf: Option<Seq<u8>>,
    pub finished: bool,
}

/// What the client holds the server's messages against.
pub ghost struct Expected {
    pub suite: Suite,
    pub auth_key: Seq<u8>,
    pub pin: Option<Seq<u8>>,
    pub server_secret: Seq<u8>,
}

/// Whether a leaf is the server's: it has the HMAC, or it is the pinned one.
pub open spec fn leaf_is_right(want: Expected, leaf: Seq<u8>) -> bool {
    hmac_fits(want.auth_key, leaf) || want.pin == Some(leaf)
}

/// The talk after one handshake message.
pub open spec fn heard(want: Expected, talk: Talk, msg: Seq<u8>) -> Result<Talk, TlsError> {
    let more = Talk { said: talk.said + msg, ..talk };
    let hash = want.suite.digest(talk.said);
    if msg[0] == 8 {
        Ok(more)
    } else if msg[0] == 11 {
        match certificate_in(msg) {
            Err(fault) => Err(TlsError::Certificate(fault)),
            Ok(leaf) => if leaf_is_right(want, leaf) {
                Ok(Talk { leaf: Some(leaf), ..more })
            } else {
                Err(TlsError::WrongCertificate)
            },
        }
    } else if msg[0] == 15 {
        match talk.leaf {
            None => Err(TlsError::NoCertificate),
            Some(leaf) => match verify_fault(leaf, msg, hash) {
                Some(fault) => Err(TlsError::CertificateVerify(fault)),
                None => Ok(more),
            },
        }
    } else if msg[0] == 20 {
        let mac = finished_mac(want.suite, want.server_secret, hash);
        if msg.len() < 4 + super::auth::hash_size(want.suite.wide_hash()) {
            Err(TlsError::ShortFinished)
        } else if msg.skip(4) != mac {
            Err(TlsError::WrongFinished)
        } else {
            Ok(Talk { finished: true, ..more })
        }
    } else if (msg[0] == 4 || msg[0] == 24) && talk.finished {
        Ok(talk)
    } else {
        Err(TlsError::Message(msg[0]))
    }
}

/// The talk after all whole messages in a buffer, and what is left of it.
pub open spec fn heard_all(want: Expected, talk: Talk, buf: Seq<u8>) -> Result<(Talk, Seq<u8>), TlsError>
    decreases buf.len(),
{
    match message_end(buf) {
        None => Ok((talk, buf)),
        Some(end) => if end <= 0 {
            Ok((talk, buf))
        } else {
            match heard(want, talk, buf.take(end)) {
                Err(error) => Err(error),
                Ok(next) => heard_all(want, next, buf.skip(end)),
            }
        },
    }
}

/// What the ServerHello settles: the suite, and the server's key.
pub open spec fn settled(msg: Seq<u8>) -> Result<(Suite, Seq<u8>), TlsError> {
    match server_hello_in(msg) {
        None => Err(TlsError::BadServerHello),
        Some(hello) => match Suite::of_id(hello.cipher) {
            None => Err(TlsError::UnsupportedCipher),
            Some(suite) => match hello.x25519_public {
                None => Err(TlsError::NoServerKey),
                Some(key) => Ok((suite, key)),
            },
        },
    }
}

/// The ServerHello message, once it is there in full.
pub open spec fn hello_heard(leftover: Seq<u8>, typ: u8, body: Seq<u8>) -> Result<Option<Seq<u8>>, TlsError> {
    let all = leftover + body;
    if typ != 0x16 {
        Err(TlsError::NoServerHelloRecord)
    } else {
        match message_end(all) {
            None => Ok(None),
            Some(end) => if all[0] != 2 {
                Err(TlsError::NoServerHello)
            } else {
                Ok(Some(all.take(end)))
            },
        }
    }
}

// ---------------------------------------------------------------------------
// The state
// ---------------------------------------------------------------------------

/// The client after the ServerHello.
pub struct ClientFlight {
    suite: Suite,
    transcript: Transcript,
    client: HsKeys,
    server: HsKeys,
    secret: Vec<u8>,
    buf: Vec<u8>,
    leaf: Option<Vec<u8>>,
    finished: bool,
}

pub open spec fn bytes_view(bytes: Option<Vec<u8>>) -> Option<Seq<u8>> {
    match bytes {
        Some(bytes) => Some(bytes@),
        None => None,
    }
}

impl ClientFlight {
    pub closed spec fn suite(&self) -> Suite {
        self.suite
    }

    pub closed spec fn talk(&self) -> Talk {
        Talk { said: self.transcript.said(), leaf: bytes_view(self.leaf), finished: self.finished }
    }

    pub closed spec fn buf(&self) -> Seq<u8> {
        self.buf@
    }

    pub closed spec fn secret(&self) -> Seq<u8> {
        self.secret@
    }

    pub closed spec fn client_secret(&self) -> Seq<u8> {
        self.client.secret@
    }

    pub closed spec fn server_secret(&self) -> Seq<u8> {
        self.server.secret@
    }

    pub closed spec fn client_keys(&self) -> TrafficKeys {
        self.client.keys
    }

    pub closed spec fn server_keys(&self) -> TrafficKeys {
        self.server.keys
    }

    pub closed spec fn wf(&self) -> bool {
        self.transcript.suite() == self.suite
    }
}

pub enum ClientPhase {
    /// Waiting for the ServerHello, with a part of it perhaps.
    Hello(Vec<u8>),
    /// Waiting for the server's Finished.
    Flight(ClientFlight),
    /// Nothing more is expected.
    Over,
}

/// A handshake with a REALITY server.
pub struct ClientHandshake {
    private: [u8; 32],
    auth_key: [u8; 32],
    pin: Option<Vec<u8>>,
    hello: Vec<u8>,
    phase: ClientPhase,
}

/// What to do after a record.
pub enum ClientStep {
    /// Read another record.
    More,
    /// Send `out`; the connection is up.
    Done { out: Vec<u8>, send: TrafficKeys, recv: TrafficKeys },
}

/// The client at the start of the server's flight, for a given ServerHello.
pub open spec fn flight_begins(flight: ClientFlight, private: Seq<u8>, hello: Seq<u8>, msg: Seq<u8>) -> bool {
    &&& settled(msg) matches Ok((suite, peer))
    &&& {
        let hash = suite.digest(hello + msg);
        &&& flight.wf()
        &&& flight.suite() == suite
        &&& flight.talk() == (Talk { said: hello + msg, leaf: None, finished: false })
        &&& flight.buf() == Seq::<u8>::empty()
        &&& flight.secret() == handshake_secret_of(suite, x25519_secret(private, peer))
        &&& flight.client_secret() == derived_secret(suite, flight.secret(), LABEL_CLIENT_HANDSHAKE@, hash)
        &&& flight.server_secret() == derived_secret(suite, flight.secret(), LABEL_SERVER_HANDSHAKE@, hash)
        &&& keys_for(flight.client_keys(), suite, flight.client_secret())
        &&& keys_for(flight.server_keys(), suite, flight.server_secret())
    }
}

/// What the client sends at the end, and the keys that it has then. Its last
/// record opens to its Finished message.
pub open spec fn ends_with(
    flight: ClientFlight,
    said: Seq<u8>,
    out: Seq<u8>,
    send: TrafficKeys,
    recv: TrafficKeys,
) -> bool {
    let suite = flight.suite();
    let hash = suite.digest(said);
    let finished = message_wire(20, finished_mac(suite, flight.client_secret(), hash));
    let secrets = application_secrets(suite, flight.secret(), hash);
    &&& out == CCS@ + record_of(flight.client_keys(), 0x16, finished, None)
    &&& opened_record(flight.client_keys(), out.skip(11)) == Ok::<(u8, Seq<u8>), RecordError>((0x16, finished))
    &&& keys_for(send, suite, secrets.0)
    &&& keys_for(recv, suite, secrets.1)
}

impl ClientHandshake {
    pub closed spec fn private(&self) -> Seq<u8> {
        self.private@
    }

    pub closed spec fn auth_key(&self) -> Seq<u8> {
        self.auth_key@
    }

    pub closed spec fn pin(&self) -> Option<Seq<u8>> {
        bytes_view(self.pin)
    }

    pub closed spec fn hello(&self) -> Seq<u8> {
        self.hello@
    }

    pub closed spec fn phase(&self) -> ClientPhase {
        self.phase
    }

    pub open spec fn wf(&self) -> bool {
        self.phase() matches ClientPhase::Flight(flight) ==> flight.wf()
    }

    pub open spec fn expected(&self, flight: ClientFlight) -> Expected {
        Expected {
            suite: flight.suite(),
            auth_key: self.auth_key(),
            pin: self.pin(),
            server_secret: flight.server_secret(),
        }
    }

    /// What a record does while the ServerHello is awaited.
    pub open spec fn hello_step(
        before: Self,
        leftover: Seq<u8>,
        typ: u8,
        body: Seq<u8>,
        step: Result<ClientStep, TlsError>,
        after: Self,
    ) -> bool {
        match hello_heard(leftover, typ, body) {
            Err(error) => step == Err::<ClientStep, TlsError>(error),
            Ok(None) => step matches Ok(ClientStep::More) && (after.phase() matches ClientPhase::Hello(rest) && rest@
                == leftover + body),
            Ok(Some(msg)) => match settled(msg) {
                Err(error) => step == Err::<ClientStep, TlsError>(error),
                Ok(_) => step matches Ok(ClientStep::More) && (after.phase() matches ClientPhase::Flight(flight)
                    && flight_begins(flight, before.private(), before.hello(), msg)),
            },
        }
    }

    /// What a record does in the server's flight.
    pub open spec fn flight_step(
        before: Self,
        flight: ClientFlight,
        typ: u8,
        body: Seq<u8>,
        step: Result<ClientStep, TlsError>,
        after: Self,
    ) -> bool {
        if typ == 0x14 {
            step matches Ok(ClientStep::More) && after.phase() == before.phase()
        } else if typ != 0x17 {
            step == Err::<ClientStep, TlsError>(TlsError::HandshakeRecord(typ))
        } else {
            match opened_record(flight.server_keys(), body) {
                Err(error) => step == Err::<ClientStep, TlsError>(TlsError::Record(error)),
                Ok((inner, content)) => if inner != 0x16 {
                    step == Err::<ClientStep, TlsError>(TlsError::InnerType)
                } else {
                    match heard_all(before.expected(flight), flight.talk(), flight.buf() + content) {
                        Err(error) => step == Err::<ClientStep, TlsError>(error),
                        Ok((talk, rest)) => if talk.finished {
                            step matches Ok(ClientStep::Done { out, send, recv }) && ends_with(
                                flight,
                                talk.said,
                                out@,
                                send,
                                recv,
                            )
                        } else {
                            step matches Ok(ClientStep::More) && (after.phase() matches ClientPhase::Flight(next)
                                && next.wf() && next.suite() == flight.suite() && next.talk() == talk && next.buf()
                                == rest && next.secret() == flight.secret() && next.client_secret()
                                == flight.client_secret() && next.server_secret() == flight.server_secret()
                                && next.client_keys() == flight.client_keys() && next.server_keys() == counted(
                                flight.server_keys(),
                            ))
                        },
                    }
                },
            }
        }
    }
}

fn take_server_hello(private: &[u8; 32], hello: &[u8], msg: &[u8]) -> (flight: Result<ClientFlight, TlsError>)
    ensures
        match flight {
            Ok(flight) => flight_begins(flight, private@, hello@, msg@),
            Err(error) => settled(msg@) == Err::<(Suite, Seq<u8>), TlsError>(error),
        },
{
    let view = match ServerHelloView::parse(msg) {
        Some(view) => view,
        None => return Err(TlsError::BadServerHello),
    };
    let suite = match Suite::from_id(view.cipher) {
        Some(suite) => suite,
        None => return Err(TlsError::UnsupportedCipher),
    };
    let peer = match view.x25519_public {
        Some(peer) => peer,
        None => return Err(TlsError::NoServerKey),
    };
    let mut transcript = Transcript::new(suite);
    transcript.update(hello);
    transcript.update(msg);
    assert(transcript.said() =~= hello@ + msg@);
    let shared = x25519_shared(private, &peer);
    let hash = transcript.hash();
    let (client, server, secret) = handshake_traffic_keys(suite, &shared, &hash);
    Ok(
        ClientFlight { suite, transcript, client, server, secret, buf: Vec::new(), leaf: None, finished: false },
    )
}

fn same_pin(pin: &Option<Vec<u8>>, leaf: &[u8]) -> (same: bool)
    ensures
        same == (bytes_view(*pin) == Some(leaf@)),
{
    match pin {
        Some(pin) => same_bytes(pin, leaf),
        None => false,
    }
}

impl ClientFlight {
    /// Takes one handshake message.
    fn hear(&mut self, msg: &[u8], auth_key: &[u8; 32], pin: &Option<Vec<u8>>) -> (out: Result<(), TlsError>)
        requires
            old(self).wf(),
            msg@.len() >= 4,
        ensures
            ({
                let want = Expected {
                    suite: old(self).suite(),
                    auth_key: auth_key@,
                    pin: bytes_view(*pin),
                    server_secret: old(self).server_secret(),
                };
                match out {
                    Ok(_) => heard(want, old(self).talk(), msg@) == Ok::<Talk, TlsError>(final(self).talk()),
                    Err(error) => heard(want, old(self).talk(), msg@) == Err::<Talk, TlsError>(error),
                }
            }),
            final(self).wf(),
            final(self).suite() == old(self).suite(),
            final(self).buf() == old(self).buf(),
            final(self).secret() == old(self).secret(),
            final(self).client_secret() == old(self).client_secret(),
            final(self).server_secret() == old(self).server_secret(),
            final(self).client_keys() == old(self).client_keys(),
            final(self).server_keys() == old(self).server_keys(),
    {
        let typ: u8 = msg[0];
        if typ == 8 {
            self.transcript.update(msg);
            return Ok(());
        }
        if typ == 11 {
            return match parse_certificate(msg) {
                Err(fault) => Err(TlsError::Certificate(fault)),
                Ok(leaf) => {
                    if !verify_hmac_certificate(auth_key, &leaf) && !same_pin(pin, &leaf) {
                        return Err(TlsError::WrongCertificate);
                    }
                    self.leaf = Some(leaf);
                    self.transcript.update(msg);
                    Ok(())
                },
            };
        }
        if typ == 15 {
            let hash = self.transcript.hash();
            match &self.leaf {
                None => return Err(TlsError::NoCertificate),
                Some(leaf) => {
                    if let Err(fault) = verify_certificate_verify(leaf, msg, &hash) {
                        return Err(TlsError::CertificateVerify(fault));
                    }
                },
            }
            self.transcript.update(msg);
            return Ok(());
        }
        if typ == 20 {
            if msg.len() < 4 + self.suite.hash_len() {
                return Err(TlsError::ShortFinished);
            }
            let hash = self.transcript.hash();
            let mac = finished_verify(self.suite, &self.server.secret, &hash);
            let claimed = vstd::slice::slice_subrange(msg, 4, msg.len());
            assert(claimed@ =~= msg@.skip(4));
            if !ct_eq(claimed, &mac) {
                return Err(TlsError::WrongFinished);
            }
            self.transcript.update(msg);
            self.finished = true;
            return Ok(());
        }
        if (typ == 4 || typ == 24) && self.finished {
            return Ok(());
        }
        Err(TlsError::Message(typ))
    }

    /// Takes all whole messages in the buffer and `content` behind it.
    fn hear_all(&mut self, content: &[u8], auth_key: &[u8; 32], pin: &Option<Vec<u8>>) -> (out: Result<(), TlsError>)
        requires
            old(self).wf(),
        ensures
            ({
                let want = Expected {
                    suite: old(self).suite(),
                    auth_key: auth_key@,
                    pin: bytes_view(*pin),
                    server_secret: old(self).server_secret(),
                };
                let all = heard_all(want, old(self).talk(), old(self).buf() + content@);
                match out {
                    Ok(_) => all == Ok::<(Talk, Seq<u8>), TlsError>((final(self).talk(), final(self).buf())),
                    Err(error) => all == Err::<(Talk, Seq<u8>), TlsError>(error),
                }
            }),
            final(self).wf(),
            final(self).suite() == old(self).suite(),
            final(self).secret() == old(self).secret(),
            final(self).client_secret() == old(self).client_secret(),
            final(self).server_secret() == old(self).server_secret(),
            final(self).client_keys() == old(self).client_keys(),
            final(self).server_keys() == old(self).server_keys(),
    {
        let ghost start = *self;
        let ghost want = Expected {
            suite: self.suite(),
            auth_key: auth_key@,
            pin: bytes_view(*pin),
            server_secret: self.server_secret(),
        };
        self.buf.extend_from_slice(content);
        assert(self.buf@ =~= start.buf@ + content@);
        let ghost all = heard_all(want, start.talk(), start.buf() + content@);
        assert(self.talk() == start.talk());
        loop
            invariant
                start == *old(self),
                all == heard_all(want, start.talk(), start.buf() + content@),
                self.wf(),
                self.suite() == start.suite(),
                self.secret() == start.secret(),
                self.client_secret() == start.client_secret(),
                self.server_secret() == start.server_secret(),
                self.client_keys() == start.client_keys(),
                self.server_keys() == start.server_keys(),
                want == (Expected {
                    suite: start.suite(),
                    auth_key: auth_key@,
                    pin: bytes_view(*pin),
                    server_secret: start.server_secret(),
                }),
                heard_all(want, self.talk(), self.buf()) == all,
            decreases self.buf().len(),
        {
            match split_handshake(&self.buf) {
                None => return Ok(()),
                Some((msg, rest)) => {
                    let ghost before = *self;
                    self.buf = rest;
                    assert(self.talk() == before.talk());
                    if let Err(error) = self.hear(&msg, auth_key, pin) {
                        return Err(error);
                    }
                },
            }
        }
    }

    /// The last bytes of the client's handshake, and the keys after it.
    fn finish(&mut self) -> (done: (Vec<u8>, TrafficKeys, TrafficKeys))
        requires
            old(self).wf(),
        ensures
            ends_with(*old(self), old(self).talk().said, done.0@, done.1, done.2),
    {
        let hash = self.transcript.hash();
        let (send, recv) = application_traffic_keys(self.suite, &self.secret, &hash);
        let mac = finished_verify(self.suite, &self.client.secret, &hash);
        let finished = handshake_msg(20, &mac);
        proof {
            lemma_be_bytes_len(mac@.len(), 3);
        }
        let ccs = CCS;
        let mut out: Vec<u8> = Vec::new();
        out.extend_from_slice(&ccs);
        let record = self.client.keys.encrypt(0x16, &finished);
        out.extend_from_slice(&record);
        assert(out@ =~= CCS@ + record@);
        assert(out@.skip(11) =~= record@.skip(5));
        (out, send, recv)
    }
}

impl ClientHandshake {
    /// Takes the next record from the server. After an error, and at the end,
    /// nothing more is expected.
    pub fn on_record(&mut self, typ: u8, body: &[u8]) -> (step: Result<ClientStep, TlsError>)
        requires
            old(self).wf(),
        ensures
            final(self).wf(),
            final(self).private() == old(self).private(),
            final(self).auth_key() == old(self).auth_key(),
            final(self).pin() == old(self).pin(),
            final(self).hello() == old(self).hello(),
            match old(self).phase() {
                ClientPhase::Hello(leftover) => ClientHandshake::hello_step(
                    *old(self),
                    leftover@,
                    typ,
                    body@,
                    step,
                    *final(self),
                ),
                ClientPhase::Flight(flight) => ClientHandshake::flight_step(
                    *old(self),
                    flight,
                    typ,
                    body@,
                    step,
                    *final(self),
                ),
                ClientPhase::Over => step == Err::<ClientStep, TlsError>(TlsError::HandshakeRecord(typ)),
            },
            !(step matches Ok(ClientStep::More)) ==> final(self).phase() is Over,
    {
        let ghost before = *self;
        let mut phase = ClientPhase::Over;
        std::mem::swap(&mut phase, &mut self.phase);
        match phase {
            ClientPhase::Hello(leftover) => {
                if typ != 0x16 {
                    return Err(TlsError::NoServerHelloRecord);
                }
                let mut all = leftover;
                let ghost part = all@;
                all.extend_from_slice(body);
                assert(all@ =~= part + body@);
                match split_handshake(&all) {
                    None => {
                        self.phase = ClientPhase::Hello(all);
                        Ok(ClientStep::More)
                    },
                    Some((msg, _)) => {
                        if msg[0] != 2 {
                            return Err(TlsError::NoServerHello);
                        }
                        match take_server_hello(&self.private, &self.hello, &msg) {
                            Err(error) => Err(error),
                            Ok(flight) => {
                                self.phase = ClientPhase::Flight(flight);
                                Ok(ClientStep::More)
                            },
                        }
                    },
                }
            },
            ClientPhase::Flight(flight) => {
                let mut flight = flight;
                if typ == 0x14 {
                    self.phase = ClientPhase::Flight(flight);
                    return Ok(ClientStep::More);
                }
                if typ != 0x17 {
                    return Err(TlsError::HandshakeRecord(typ));
                }
                let ghost start = flight;
                let (inner, content) = match flight.server.keys.decrypt(body) {
                    Ok(opened) => opened,
                    Err(error) => return Err(TlsError::Record(error)),
                };
                if inner != 0x16 {
                    return Err(TlsError::InnerType);
                }
                assert(flight.talk() == start.talk());
                if let Err(error) = flight.hear_all(&content, &self.auth_key, &self.pin) {
                    return Err(error);
                }
                if flight.finished {
                    let (out, send, recv) = flight.finish();
                    return Ok(ClientStep::Done { out, send, recv });
                }
                self.phase = ClientPhase::Flight(flight);
                Ok(ClientStep::More)
            },
            ClientPhase::Over => Err(TlsError::HandshakeRecord(typ)),
        }
    }
}

// ---------------------------------------------------------------------------
// The start
// ---------------------------------------------------------------------------

/// Whether a server lets this client pass, whose hello carries the time
/// `unix`, at the time `now`.
pub open spec fn accepts(server: RealityServerConfig, client: RealityClientConfig, unix: u32, now: nat) -> bool {
    &&& x25519_point(server.private_key@) == client.public_key@
    &&& name_passes(server, Some(client.server_name@))
    &&& short_id_known(server.short_ids@, client.short_id@)
    &&& time_fits(server, unix as nat, now)
}

/// Every server that accepts the client takes this record, and then has the
/// same key. The record is one that its length field can tell.
pub open spec fn welcome(record: Seq<u8>, client: RealityClientConfig, unix: u32, auth_key: Seq<u8>) -> bool {
    forall|server: RealityServerConfig, now: nat| #[trigger]
        accepts(server, client, unix, now) && record.len() < 0x1_0005 ==> (authenticated(record, server, now) matches Ok(
            (hello, key),
        ) && key == auth_key && hello.sni == Some(client.server_name@))
}

/// The session id that a client sends.
pub open spec fn session_id_of(
    client: RealityClientConfig,
    private: Seq<u8>,
    random: Seq<u8>,
    unix: u32,
    noise: HelloNoise,
) -> Seq<u8> {
    let zeros = Seq::new(32, |i: int| 0u8);
    aes256_seal(
        auth_key_of(x25519_secret(private, client.public_key@), random),
        random.skip(20),
        client_hello_wire(random, zeros, client.server_name@, x25519_point(private), noise),
        session_id_wire(CLIENT_VERSION@, unix, client.short_id@),
    )
}

/// The ClientHello for given random bytes.
pub open spec fn hello_for(
    client: RealityClientConfig,
    private: Seq<u8>,
    random: Seq<u8>,
    unix: u32,
    noise: HelloNoise,
) -> Seq<u8> {
    client_hello_wire(
        random,
        session_id_of(client, private, random, unix, noise),
        client.server_name@,
        x25519_point(private),
        noise,
    )
}

/// A handshake that has begun, and its first record, for given random bytes.
pub open spec fn begun(
    handshake: ClientHandshake,
    record: Seq<u8>,
    config: RealityClientConfig,
    pin: Option<Seq<u8>>,
    unix: u32,
    private: Seq<u8>,
    random: Seq<u8>,
    noise: HelloNoise,
) -> bool {
    let hello = hello_for(config, private, random, unix, noise);
    &&& handshake.phase() matches ClientPhase::Hello(leftover)
    &&& leftover@ == Seq::<u8>::empty()
    &&& handshake.private() == private
    &&& handshake.pin() == pin
    &&& handshake.hello() == hello
    &&& handshake.auth_key() == auth_key_of(x25519_secret(private, config.public_key@), random)
    &&& record == hello_record(hello)
}

/// The same for some random bytes and some time; the servers that accept that
/// time take the record.
pub open spec fn begins(
    handshake: ClientHandshake,
    record: Seq<u8>,
    config: RealityClientConfig,
    pin: Option<Seq<u8>>,
) -> bool {
    exists|unix: u32, private: [u8; 32], random: [u8; 32], noise: HelloNoise|
        #[trigger] begun(handshake, record, config, pin, unix, private@, random@, noise) && welcome(
            record,
            config,
            unix,
            handshake.auth_key(),
        )
}

/// Whether the ClientHello is too long to seal its session id over it.
pub open spec fn hello_too_long(
    config: RealityClientConfig,
    private: Seq<u8>,
    random: Seq<u8>,
    noise: HelloNoise,
) -> bool {
    let zeros = Seq::new(32, |i: int| 0u8);
    client_hello_wire(random, zeros, config.server_name@, x25519_point(private), noise).len() > AEAD_LIMIT
}

pub open spec fn may_be_too_long(config: RealityClientConfig) -> bool {
    exists|private: [u8; 32], random: [u8; 32], noise: HelloNoise|
        #[trigger] hello_too_long(config, private@, random@, noise)
}

impl ClientHandshake {
    /// The handshake for given random bytes, and the record to send first.
    pub fn begin(
        config: &RealityClientConfig,
        pin: Option<Vec<u8>>,
        unix: u32,
        private: &[u8; 32],
        random: &[u8; 32],
        noise: &HelloNoise,
    ) -> (out: Result<(Self, Vec<u8>), TlsError>)
        ensures
            match out {
                Ok((handshake, record)) => {
                    &&& handshake.wf()
                    &&& begun(handshake, record@, *config, bytes_view(pin), unix, private@, random@, *noise)
                    &&& record@.len() == 5 + hello_len(config.server_name@, *noise)
                    &&& welcome(record@, *config, unix, handshake.auth_key())
                },
                Err(error) => error == TlsError::TooLong && hello_too_long(*config, private@, random@, *noise),
            },
    {
        let public = x25519_public(private);
        let plain = session_id_plain(CLIENT_VERSION, unix, config.short_id);
        let zeros: [u8; 32] = [0u8; 32];
        assert(zeros@ =~= Seq::new(32, |i: int| 0u8));
        let blank = client_hello_handshake(random, &zeros, &config.server_name, &public, noise);
        if blank.len() as u64 > AEAD_LIMIT {
            return Err(TlsError::TooLong);
        }
        let sealed = seal_session_id(private, &config.public_key, random, &plain, &blank);
        let hello = client_hello_handshake(random, &sealed, &config.server_name, &public, noise);
        let shared = x25519_shared(private, &config.public_key);
        let auth_key = reality_auth_key(&shared, random);
        let record = record_of_hello(&hello);
        proof {
            assert(hello@ == hello_for(*config, private@, random@, unix, *noise));
            law_session_id_place(random@, sealed@, config.server_name@, public@, *noise);
            lemma_hello_record(hello@);
            assert forall|server: RealityServerConfig, now: nat| #[trigger]
                accepts(server, *config, unix, now) && record@.len() < 0x1_0005 implies (authenticated(
                record@,
                server,
                now,
            ) matches Ok((view, key)) && key == auth_key@ && view.sni == Some(config.server_name@)) by {
                lemma_client_hello(random@, sealed@, config.server_name@, public@, *noise);
                let view = client_parts(random@, sealed@, config.server_name@, public@);
                assert(super::hello::client_hello_in(hello@) == Some(view));
                assert(blanked(hello@) == blank@);
                assert(super::auth::opened(server.private_key@, public@, random@, sealed@, hello@) == Some(plain@));
                lemma_plain_parts(unix, config.short_id@);
                assert(x25519_secret(server.private_key@, public@) == shared@);
            }
        }
        Ok(
            (
                ClientHandshake {
                    private: *private,
                    auth_key,
                    pin,
                    hello,
                    phase: ClientPhase::Hello(Vec::new()),
                },
                record,
            ),
        )
    }

    /// Starts a handshake with fresh random bytes, now.
    pub fn start(config: &RealityClientConfig, pin: Option<Vec<u8>>) -> (out: Result<(Self, Vec<u8>), TlsError>)
        ensures
            match out {
                Ok((handshake, record)) => {
                    &&& handshake.wf()
                    &&& begins(handshake, record@, *config, bytes_view(pin))
                    &&& record@.len() <= 5 + LONGEST_NAMELESS_HELLO + vstd::utf8::encode_utf8(
                        config.server_name@,
                    ).len()
                },
                Err(error) => error == TlsError::NoRandomness || (error == TlsError::TooLong && may_be_too_long(
                    *config,
                )),
            },
    {
        let private: [u8; 32] = match os_random_array() {
            Some(bytes) => bytes,
            None => return Err(TlsError::NoRandomness),
        };
        let random: [u8; 32] = match os_random_array() {
            Some(bytes) => bytes,
            None => return Err(TlsError::NoRandomness),
        };
        let noise = match draw_noise() {
            Some(noise) => noise,
            None => return Err(TlsError::NoRandomness),
        };
        let now: u64 = unix_seconds();
        let unix: u32 = (now % 0x1_0000_0000) as u32;
        ClientHandshake::begin(config, pin, unix, &private, &random, &noise)
    }
}

proof fn lemma_plain_parts(unix: u32, short_id: Seq<u8>)
    requires
        short_id.len() == 8,
    ensures
        ({
            let plain = session_id_wire(CLIENT_VERSION@, unix, short_id);
            &&& plain.subrange(8, 16) == short_id
            &&& crate::wire::be_value(plain.subrange(4, 8)) == unix
        }),
{
    let plain = session_id_wire(CLIENT_VERSION@, unix, short_id);
    lemma_be_range();
    lemma_be_bytes_len(unix as nat, 4);
    lemma_value_of_bytes(unix as nat, 4);
    assert(plain.subrange(8, 16) =~= short_id);
    assert(plain.subrange(4, 8) =~= be_bytes(unix as nat, 4));
}

/// A client that has the public key of a server, one of its short ids and one
/// of its names passes there as long as the two clocks are at most as many
/// whole seconds apart as the server allows, whichever of them is ahead; and
/// then both have the same key.
pub proof fn law_right_client_passes(
    record: Seq<u8>,
    client: RealityClientConfig,
    server: RealityServerConfig,
    unix: u32,
    now: nat,
    auth_key: Seq<u8>,
)
    requires
        welcome(record, client, unix, auth_key),
        record.len() < 0x1_0005,
        x25519_point(server.private_key@) == client.public_key@,
        exists|i: int| 0 <= i < server.short_ids@.len() && (#[trigger] server.short_ids@[i])@ == client.short_id@,
        server.server_names@.len() > 0 ==> exists|i: int|
            0 <= i < server.server_names@.len() && (#[trigger] server.server_names@[i])@ == client.server_name@,
        server.max_time_diff_ms > 0 ==> {
            &&& unix <= now + server.max_time_diff_ms as int / 1000
            &&& now <= unix + server.max_time_diff_ms as int / 1000
        },
    ensures
        authenticated(record, server, now) matches Ok((hello, key)) && key == auth_key && hello.sni == Some(
            client.server_name@,
        ),
{
    assert(name_passes(server, Some(client.server_name@))) by {
        if server.server_names@.len() > 0 {
            let i = choose|i: int|
                0 <= i < server.server_names@.len() && (#[trigger] server.server_names@[i])@ == client.server_name@;
            assert(crate::text::lower_all(server.server_names@[i]@) == crate::text::lower_all(client.server_name@));
        }
    }
    assert(accepts(server, client, unix, now));
}

} // verus!
