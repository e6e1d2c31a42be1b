//! What the server does with each frame that arrives.

use bytes::Bytes;
use vstd::prelude::*;

use super::session::{
    accept_sequence, begun, created, host_used, in_window, limited, ClientLink, Fresh, KickedSession, Session,
    SessionId, SessionManager, Sessions,
};
use crate::auth::keys::VerifyingKey;
use crate::auth::token::{law_token_roundtrip, token_fault, AuthError, SubscriptionClaims, SubscriptionToken};
use crate::auth::verify::{verdict, FileRevocationStore, RevocationStore, SubscriptionVerifier};
use crate::buffer::{bytes_from_vec, bytes_len, bytes_slice, bytes_view};
use crate::net::PeerAddr;
use crate::protocol::access_denied_dude::{AccessDeniedDude, DenyReason};
use crate::protocol::all_good_dude::{AllGoodDude, SERVER_NONCE_SIZE};
use crate::protocol::back_again_dude::{back_again_in, law_back_again_roundtrip, BackAgainDude, BACK_AGAIN_DUDE_SIZE};
use crate::protocol::close::{close_fault, close_in, law_close_roundtrip, Close, CloseReason};
use crate::protocol::data::{data_fault, data_in, law_data_roundtrip, Data, MAX_DATA_PAYLOAD_SIZE};
use crate::protocol::frame::{frame_wire, next, next_sequence, plain_frame, Frame, FrameType};
use crate::protocol::ping::{law_ping_roundtrip, ping_in, Ping, PING_SIZE};
use crate::protocol::pong::Pong;
use crate::protocol::rekey::{law_rekey_roundtrip, rekey_in, Rekey, REKEY_REQUEST_SIZE, REKEY_TOKEN_SIZE};
use crate::protocol::still_good_dude::StillGoodDude;
use crate::protocol::whats_up_dude::{
    law_whats_up_roundtrip, whats_up_fault, whats_up_in, WhatsUpDude, CAP_DNS, CAP_IPV4, CAP_RESUME,
};
use crate::tun::packet::{destination_of, ipv4_destination, ipv4_source, source_of, PAYPHONE_MTU};
use crate::wire::{be_bytes, same_bytes};

verus! {

/// What the server can do: `CAP_IPV4`, `CAP_DNS` and `CAP_RESUME`.
pub const SERVER_CAPABILITIES: u32 = 13;

pub type PayphoneVerifier = SubscriptionVerifier<FileRevocationStore>;

/// What is left to do after a frame: send bytes to a client, or write a
/// packet to the tunnel device.
#[derive(Debug)]
pub enum ServerAction {
    Send { link: ClientLink, bytes: Bytes },
    WriteTun { packet: Bytes },
}

/// An action, its bytes as a sequence.
pub ghost enum Effect {
    Send(ClientLink, Seq<u8>),
    Packet(Seq<u8>),
}

impl ServerAction {
    pub open spec fn effect(self) -> Effect {
        match self {
            ServerAction::Send { link, bytes } => Effect::Send(link, bytes_view(bytes)),
            ServerAction::WriteTun { packet } => Effect::Packet(bytes_view(packet)),
        }
    }
}

pub open spec fn effects(actions: Seq<ServerAction>) -> Seq<Effect> {
    Seq::new(actions.len(), |i: int| actions[i].effect())
}

fn send(link: ClientLink, frame_type: FrameType, sequence: u64, payload: Bytes) -> (action: ServerAction)
    requires
        bytes_view(payload).len() <= 0x2_0000,
    ensures
        action.effect() == Effect::Send(link, frame_wire(frame_type, sequence, bytes_view(payload))),
{
    ServerAction::Send { link, bytes: plain_frame(frame_type, sequence, payload) }
}

// ---------------------------------------------------------------------------
// Turning a client away
// ---------------------------------------------------------------------------

/// What a client is told of a token that was refused.
pub open spec fn deny_of(error: AuthError, expires_at: u64) -> (DenyReason, u64) {
    match error {
        AuthError::Expired => (DenyReason::SubscriptionExpired, expires_at),
        AuthError::Revoked => (DenyReason::TokenRevoked, 0),
        AuthError::NotYetValid => (DenyReason::SubscriptionNotActive, 0),
        AuthError::UnknownKeyId(_) => (DenyReason::UnknownSigningKey, 0),
        AuthError::UnknownPlan(_) => (DenyReason::UnsupportedPlan, 0),
        _ => (DenyReason::InvalidToken, 0),
    }
}

fn auth_error_to_deny(error: &AuthError, expires_at: u64) -> (deny: (DenyReason, u64))
    ensures
        deny == deny_of(*error, expires_at),
{
    match error {
        AuthError::Expired => (DenyReason::SubscriptionExpired, expires_at),
        AuthError::Revoked => (DenyReason::TokenRevoked, 0),
        AuthError::NotYetValid => (DenyReason::SubscriptionNotActive, 0),
        AuthError::UnknownKeyId(_) => (DenyReason::UnknownSigningKey, 0),
        AuthError::UnknownPlan(_) => (DenyReason::UnsupportedPlan, 0),
        _ => (DenyReason::InvalidToken, 0),
    }
}

pub open spec fn denied(link: ClientLink, sequence: u64, reason: DenyReason, expires_at: u64) -> Effect {
    Effect::Send(
        link,
        frame_wire(
            FrameType::AccessDeniedDude,
            next(sequence),
            (AccessDeniedDude { reason, expires_at }).wire(),
        ),
    )
}

fn send_access_denied(link: ClientLink, sequence: u64, reason: DenyReason, expires_at: u64) -> (action: ServerAction)
    ensures
        action.effect() == denied(link, sequence, reason, expires_at),
{
    let message = AccessDeniedDude::new(reason, expires_at);
    send(link, FrameType::AccessDeniedDude, next_sequence(sequence), message.encode())
}

// ---------------------------------------------------------------------------
// WHATS_UP_DUDE
// ---------------------------------------------------------------------------

/// The token that some bytes are the wire form of.
pub open spec fn token_in(data: Seq<u8>) -> SubscriptionToken {
    choose|t: SubscriptionToken| t.wire() == data
}

/// Whether a token in its wire form lets its bearer in, and what they are
/// told otherwise.
pub open spec fn admission(
    keys: Map<u32, VerifyingKey>,
    revoked: Set<Seq<u8>>,
    token: Seq<u8>,
    now_unix: u64,
) -> Result<SubscriptionClaims, (DenyReason, u64)> {
    if token_fault(token) is Some {
        Err((DenyReason::InvalidToken, 0))
    } else {
        match verdict(keys, revoked, token_in(token), now_unix) {
            Ok(claims) => Ok(claims),
            Err(error) => Err(deny_of(error, token_in(token).claims.expires_at)),
        }
    }
}

/// A CLOSE for each session that made room.
pub open spec fn close_notices(kicked: Seq<KickedSession>) -> Seq<Effect> {
    Seq::new(
        kicked.len(),
        |i: int| closed(kicked[i].link, kicked[i].id, CloseReason::Replaced),
    )
}

pub open spec fn closed(link: ClientLink, session_id: SessionId, reason: CloseReason) -> Effect {
    Effect::Send(link, frame_wire(FrameType::Close, 0, (Close { session_id, reason }).wire()))
}

/// What WHATS_UP_DUDE leads to: nothing where the message is malformed; a
/// refusal where the token or the address space does not do; otherwise a new
/// session, a notice to those that made room, and the answer.
pub open spec fn greets(
    before: Sessions,
    after: Sessions,
    done: Seq<Effect>,
    keys: Map<u32, VerifyingKey>,
    revoked: Set<Seq<u8>>,
    link: ClientLink,
    address: PeerAddr,
    sequence: u64,
    data: Seq<u8>,
    now: u64,
    now_unix: u64,
    fresh: Fresh,
) -> bool {
    if whats_up_fault(data) is Some {
        after == before && done.len() == 0
    } else {
        let m = whats_up_in(data);
        match admission(keys, revoked, m.token(), now_unix) {
            Err((reason, expires_at)) => after == before && done == seq![denied(link, sequence, reason, expires_at)],
            Ok(claims) => {
                ||| exists|kicked: Seq<KickedSession>, message: AllGoodDude|
                    {
                        &&& #[trigger] created(
                            before,
                            claims,
                            kicked,
                            begun(
                                address,
                                link,
                                m.capabilities & SERVER_CAPABILITIES,
                                m.client_nonce,
                                sequence,
                                claims,
                                message.assigned_ipv4,
                                now,
                                fresh,
                            ),
                            PAYPHONE_MTU,
                            message,
                            after,
                        )
                        &&& done == close_notices(kicked).push(
                            Effect::Send(link, frame_wire(FrameType::AllGoodDude, next(sequence), message.wire())),
                        )
                    }
                ||| {
                    &&& exists|kicked: Seq<KickedSession>| #[trigger] limited(before, claims, kicked, after)
                    &&& forall|host: u8| 2 <= host <= 254 ==> #[trigger] host_used(after, host)
                    &&& done == seq![denied(link, sequence, DenyReason::InternalAuthError, 0)]
                }
            },
        }
    }
}

/// Whether WHATS_UP_DUDE opened a session: its token does, and no address was
/// wanting.
pub open spec fn opened_one(
    done: Seq<Effect>,
    keys: Map<u32, VerifyingKey>,
    revoked: Set<Seq<u8>>,
    link: ClientLink,
    sequence: u64,
    data: Seq<u8>,
    now_unix: u64,
) -> bool {
    &&& whats_up_fault(data) is None
    &&& admission(keys, revoked, whats_up_in(data).token(), now_unix) is Ok
    &&& done != seq![denied(link, sequence, DenyReason::InternalAuthError, 0)]
}

pub(super) proof fn lemma_answers_differ(notices: Seq<Effect>, link: ClientLink, sequence: u64, message: AllGoodDude)
    ensures
        notices.push(
            Effect::Send(link, frame_wire(FrameType::AllGoodDude, next(sequence), message.wire())),
        ) != seq![denied(link, sequence, DenyReason::InternalAuthError, 0)],
{
    let good = frame_wire(FrameType::AllGoodDude, next(sequence), message.wire());
    let bad = frame_wire(
        FrameType::AccessDeniedDude,
        next(sequence),
        (AccessDeniedDude { reason: DenyReason::InternalAuthError, expires_at: 0 }).wire(),
    );
    assert(good[1] != bad[1]);
    let done = notices.push(Effect::Send(link, good));
    let refusal = seq![Effect::Send(link, bad)];
    if done == refusal {
        assert(done.last() == refusal.last());
    }
}

fn handle_whats_up_dude<R: RevocationStore>(
    manager: &mut SessionManager,
    verifying: &SubscriptionVerifier<R>,
    link: ClientLink,
    client_address: PeerAddr,
    sequence: u64,
    payload: Bytes,
    now: u64,
    now_unix: u64,
    fresh: &Fresh,
) -> (actions: Vec<ServerAction>)
    requires
        old(manager).wf(),
    ensures
        final(manager).wf(),
        final(manager).dirty() == (old(manager).dirty() || opened_one(
            effects(actions@),
            verifying.keys@,
            verifying.revocations.ids(),
            link,
            sequence,
            bytes_view(payload),
            now_unix,
        )),
        greets(
            old(manager)@,
            final(manager)@,
            effects(actions@),
            verifying.keys@,
            verifying.revocations.ids(),
            link,
            client_address,
            sequence,
            bytes_view(payload),
            now,
            now_unix,
            *fresh,
        ),
{
    let ghost data = bytes_view(payload);
    let ghost before = manager@;
    let mut actions: Vec<ServerAction> = Vec::new();
    let whats_up = match WhatsUpDude::decode(payload) {
        Ok(message) => message,
        Err(_) => return actions,
    };
    proof {
        law_whats_up_roundtrip(whats_up, whats_up_in(data));
    }
    let ghost token_bytes = whats_up.token();
    let token = match SubscriptionToken::decode(whats_up.auth_token) {
        Ok(token) => token,
        Err(_) => {
            let action = send_access_denied(link, sequence, DenyReason::InvalidToken, 0);
            actions.push(action);
            assert(effects(actions@) =~= seq![denied(link, sequence, DenyReason::InvalidToken, 0)]);
            return actions;
        },
    };
    proof {
        law_token_roundtrip(token, token_in(token_bytes));
        assert(token == token_in(token_bytes));
    }
    let claims = match verifying.verify_at(&token, now_unix) {
        Ok(claims) => claims,
        Err(error) => {
            let (reason, expires_at) = auth_error_to_deny(&error, token.claims.expires_at);
            let action = send_access_denied(link, sequence, reason, expires_at);
            actions.push(action);
            assert(effects(actions@) =~= seq![denied(link, sequence, reason, expires_at)]);
            return actions;
        },
    };
    let capabilities: u32 = whats_up.capabilities & SERVER_CAPABILITIES;
    let opened = manager.create_session(
        client_address,
        link,
        capabilities,
        whats_up.client_nonce,
        sequence,
        PAYPHONE_MTU,
        &claims,
        now,
        fresh,
    );
    let (message, kicked) = match opened {
        Ok(opened) => opened,
        Err(_) => {
            let action = send_access_denied(link, sequence, DenyReason::InternalAuthError, 0);
            actions.push(action);
            assert(effects(actions@) =~= seq![denied(link, sequence, DenyReason::InternalAuthError, 0)]);
            return actions;
        },
    };
    let mut i: usize = 0;
    assert(effects(actions@) =~= close_notices(kicked@.take(0)));
    while i < kicked.len()
        invariant
            i <= kicked@.len(),
            effects(actions@) == close_notices(kicked@.take(i as int)),
        decreases kicked@.len() - i,
    {
        let ghost prior = effects(actions@);
        let action = send_close(kicked[i].link, kicked[i].id, CloseReason::Replaced);
        let ghost notice = action.effect();
        actions.push(action);
        proof {
            assert(effects(actions@) =~= prior.push(notice));
            assert(close_notices(kicked@.take(i + 1)) =~= close_notices(kicked@.take(i as int)).push(notice));
        }
        i = i + 1;
    }
    assert(kicked@.take(i as int) =~= kicked@);
    let ghost notices = effects(actions@);
    let action = send(link, FrameType::AllGoodDude, next_sequence(sequence), message.encode());
    actions.push(action);
    proof {
        lemma_answers_differ(notices, link, sequence, message);
        assert(effects(actions@) =~= notices.push(
            Effect::Send(link, frame_wire(FrameType::AllGoodDude, next(sequence), message.wire())),
        ));
        assert(created(
            before,
            claims,
            kicked@,
            begun(
                client_address,
                link,
                capabilities,
                whats_up.client_nonce,
                sequence,
                claims,
                message.assigned_ipv4,
                now,
                *fresh,
            ),
            PAYPHONE_MTU,
            message,
            manager@,
        ));
    }
    actions
}

// ---------------------------------------------------------------------------
// BACK_AGAIN_DUDE
// ---------------------------------------------------------------------------

/// What BACK_AGAIN_DUDE leads to: a refusal where the subscription has run
/// out; the session back to who shows one of its tokens; nothing otherwise.
pub open spec fn comes_back(
    before: Sessions,
    after: Sessions,
    done: Seq<Effect>,
    link: ClientLink,
    address: PeerAddr,
    sequence: u64,
    data: Seq<u8>,
    now: u64,
    now_unix: u64,
) -> bool {
    let m = back_again_in(data);
    let session = before[m.session_id];
    if data.len() != BACK_AGAIN_DUDE_SIZE || !before.contains_key(m.session_id) {
        after == before && done.len() == 0
    } else if now_unix >= session.subscription_expires_at {
        after == before && done == seq![
            denied(link, sequence, DenyReason::SubscriptionExpired, session.subscription_expires_at),
        ]
    } else if !session.has_token(m.resume_token) {
        after == before && done.len() == 0
    } else {
        &&& after == before.insert(m.session_id, session.resumed(m.resume_token, address, link, sequence, now))
        &&& done == seq![
            Effect::Send(
                link,
                frame_wire(
                    FrameType::StillGoodDude,
                    next(sequence),
                    (StillGoodDude {
                        session_id: m.session_id,
                        assigned_ipv4: session.ipv4,
                        mtu: PAYPHONE_MTU,
                        capabilities: session.capabilities,
                    }).wire(),
                ),
            ),
        ]
    }
}

/// Whether BACK_AGAIN_DUDE gets its session back.
pub open spec fn gets_back(before: Sessions, data: Seq<u8>, now_unix: u64) -> bool {
    let m = back_again_in(data);
    &&& data.len() == BACK_AGAIN_DUDE_SIZE
    &&& before.contains_key(m.session_id)
    &&& now_unix < before[m.session_id].subscription_expires_at
    &&& before[m.session_id].has_token(m.resume_token)
}

fn handle_back_again_dude(
    manager: &mut SessionManager,
    link: ClientLink,
    client_address: PeerAddr,
    sequence: u64,
    payload: Bytes,
    now: u64,
    now_unix: u64,
) -> (actions: Vec<ServerAction>)
    requires
        old(manager).wf(),
    ensures
        final(manager).wf(),
        final(manager).dirty() == (old(manager).dirty() || gets_back(old(manager)@, bytes_view(payload), now_unix)),
        comes_back(
            old(manager)@,
            final(manager)@,
            effects(actions@),
            link,
            client_address,
            sequence,
            bytes_view(payload),
            now,
            now_unix,
        ),
{
    let ghost data = bytes_view(payload);
    let mut actions: Vec<ServerAction> = Vec::new();
    let message = match BackAgainDude::decode(payload) {
        Ok(message) => message,
        Err(_) => return actions,
    };
    proof {
        law_back_again_roundtrip(message, back_again_in(data));
        assert(message == back_again_in(data));
    }
    let expires_at: Option<u64> = match manager.get(&message.session_id) {
        Some(session) => Some(session.subscription_expires_at),
        None => None,
    };
    if let Some(expires_at) = expires_at {
        if now_unix >= expires_at {
            let action = send_access_denied(link, sequence, DenyReason::SubscriptionExpired, expires_at);
            actions.push(action);
            assert(effects(actions@) =~= seq![denied(link, sequence, DenyReason::SubscriptionExpired, expires_at)]);
            return actions;
        }
    }
    let resumed = manager.resume_session(
        &message.session_id,
        &message.resume_token,
        client_address,
        link,
        sequence,
        PAYPHONE_MTU,
        now,
    );
    let still_good = match resumed {
        Some(still_good) => still_good,
        None => return actions,
    };
    let action = send(link, FrameType::StillGoodDude, next_sequence(sequence), still_good.encode());
    let ghost effect = action.effect();
    actions.push(action);
    assert(effects(actions@) =~= seq![effect]);
    actions
}

// ---------------------------------------------------------------------------
// DATA
// ---------------------------------------------------------------------------

/// Whether a packet may have come from a session's own address: an IPv4
/// packet only from that address.
pub open spec fn source_ok(packet: Seq<u8>, session: Session) -> bool {
    source_of(packet) matches Some(source) ==> source == session.ipv4@
}

/// What DATA leads to. The packet goes to the tunnel device if its session
/// exists, sends from this address, has not expired, is inside the sequence
/// window, has bandwidth left and does not lie about its source.
pub open spec fn forwards(
    before: Sessions,
    after: Sessions,
    done: Seq<Effect>,
    address: PeerAddr,
    sequence: u64,
    data: Seq<u8>,
    now: u64,
    now_unix: u64,
) -> bool {
    let m = data_in(data);
    let session = before[m.session_id];
    if data_fault(data) is Some || !before.contains_key(m.session_id) || session.client_address != address || now_unix
        >= session.subscription_expires_at || !in_window(session.last_sequence, sequence) {
        after == before && done.len() == 0
    } else {
        let (allowed, rate) = session.rate.taking(m.packet().len() as u64, now);
        &&& after == before.insert(m.session_id, Session { rate, ..session.having_seen(sequence) })
        &&& done == (if allowed && source_ok(m.packet(), session) {
            seq![Effect::Packet(m.packet())]
        } else {
            seq![]
        })
    }
}

fn handle_data(
    manager: &mut SessionManager,
    client_address: PeerAddr,
    sequence: u64,
    payload: Bytes,
    now: u64,
    now_unix: u64,
) -> (actions: Vec<ServerAction>)
    requires
        old(manager).wf(),
    ensures
        final(manager).wf(),
        final(manager).dirty() == old(manager).dirty(),
        forwards(
            old(manager)@,
            final(manager)@,
            effects(actions@),
            client_address,
            sequence,
            bytes_view(payload),
            now,
            now_unix,
        ),
{
    let ghost before = manager@;
    let ghost bytes = bytes_view(payload);
    let mut actions: Vec<ServerAction> = Vec::new();
    let data = match Data::decode(payload) {
        Ok(data) => data,
        Err(_) => return actions,
    };
    proof {
        law_data_roundtrip(data, data_in(bytes));
    }
    let mut session: Session = match manager.get(&data.session_id) {
        Some(session) => *session,
        None => return actions,
    };
    if session.client_address != client_address {
        return actions;
    }
    if now_unix >= session.subscription_expires_at {
        return actions;
    }
    if !accept_sequence(&mut session.last_sequence, sequence) {
        return actions;
    }
    let size: u64 = bytes_len(&data.payload) as u64;
    let allowed: bool = session.rate.allow_at(size, now);
    let honest: bool = match ipv4_source(bytes_slice(&data.payload)) {
        Some(source) => same_bytes(&source, &session.ipv4),
        None => true,
    };
    manager.insert(session);
    proof {
        let m = data_in(bytes);
        let held = before[m.session_id];
        assert(m.packet() == data.packet());
        assert(honest == source_ok(m.packet(), held));
        assert((allowed, session.rate) == held.rate.taking(m.packet().len() as u64, now));
        assert(manager@ == before.insert(
            m.session_id,
            Session { last_sequence: session.last_sequence, rate: session.rate, ..held },
        ));
    }
    if allowed && honest {
        let ghost packet = data.packet();
        actions.push(ServerAction::WriteTun { packet: data.payload });
        assert(effects(actions@) =~= seq![Effect::Packet(packet)]);
    } else {
        assert(effects(actions@) =~= seq![]);
    }
    actions
}

// ---------------------------------------------------------------------------
// PING
// ---------------------------------------------------------------------------

pub open spec fn rekeyed(link: ClientLink, session_id: SessionId, nonce: [u8; SERVER_NONCE_SIZE]) -> Effect {
    Effect::Send(link, frame_wire(FrameType::Rekey, 0, (Rekey::Token { session_id, nonce }).wire()))
}

/// What PING leads to: a PONG to a session that is alive, and a resume token
/// where one is on offer.
pub open spec fn answers(
    before: Sessions,
    after: Sessions,
    done: Seq<Effect>,
    link: ClientLink,
    address: PeerAddr,
    sequence: u64,
    data: Seq<u8>,
    now: u64,
    fresh: Fresh,
) -> bool {
    let m = ping_in(data);
    let session = before[m.session_id];
    if data.len() != PING_SIZE || !before.contains_key(m.session_id) || session.client_address != address
        || !in_window(session.last_sequence, sequence) {
        after == before && done.len() == 0
    } else {
        let touched = session.touched(sequence, now, fresh.nonce);
        let pong = Effect::Send(
            link,
            frame_wire(
                FrameType::Pong,
                next(sequence),
                (Pong { session_id: m.session_id, ping_id: m.ping_id }).wire(),
            ),
        );
        &&& after == before.insert(m.session_id, touched)
        &&& done == (match touched.pending_nonce {
            Some(nonce) => seq![pong, rekeyed(link, m.session_id, nonce)],
            None => seq![pong],
        })
    }
}

/// Whether PING brings a new token on offer.
pub open spec fn brings_token(before: Sessions, address: PeerAddr, sequence: u64, data: Seq<u8>, now: u64) -> bool {
    let session = before[ping_in(data).session_id];
    &&& data.len() == PING_SIZE
    &&& before.contains_key(ping_in(data).session_id)
    &&& session.client_address == address
    &&& in_window(session.last_sequence, sequence)
    &&& session.pending_nonce is None
    &&& session.rekey_due(now)
}

fn handle_ping(
    manager: &mut SessionManager,
    link: ClientLink,
    client_address: PeerAddr,
    sequence: u64,
    payload: Bytes,
    now: u64,
    fresh: &Fresh,
) -> (actions: Vec<ServerAction>)
    requires
        old(manager).wf(),
    ensures
        final(manager).wf(),
        final(manager).dirty() == (old(manager).dirty() || brings_token(
            old(manager)@,
            client_address,
            sequence,
            bytes_view(payload),
            now,
        )),
        answers(
            old(manager)@,
            final(manager)@,
            effects(actions@),
            link,
            client_address,
            sequence,
            bytes_view(payload),
            now,
            *fresh,
        ),
{
    let ghost data = bytes_view(payload);
    let mut actions: Vec<ServerAction> = Vec::new();
    let ping = match Ping::decode(payload) {
        Ok(ping) => ping,
        Err(_) => return actions,
    };
    proof {
        law_ping_roundtrip(ping, ping_in(data));
        assert(ping == ping_in(data));
    }
    let offer = match manager.touch_session(&ping.session_id, client_address, sequence, now, &fresh.nonce) {
        Some(offer) => offer,
        None => return actions,
    };
    let pong = Pong::new(ping.session_id, ping.ping_id);
    let action = send(link, FrameType::Pong, next_sequence(sequence), pong.encode());
    let ghost first = action.effect();
    actions.push(action);
    match offer {
        Some(nonce) => {
            let action = send_rekey(link, ping.session_id, nonce);
            let ghost second = action.effect();
            actions.push(action);
            assert(effects(actions@) =~= seq![first, second]);
        },
        None => {
            assert(effects(actions@) =~= seq![first]);
        },
    }
    actions
}

// ---------------------------------------------------------------------------
// REKEY
// ---------------------------------------------------------------------------

/// Whether REKEY changes the tokens of its session: a token is newly on offer,
/// or the one on offer is confirmed.
pub open spec fn changes_tokens(
    before: Sessions,
    address: PeerAddr,
    sequence: u64,
    data: Seq<u8>,
) -> bool {
    let m = rekey_in(data);
    let session = before[m.id()];
    &&& data.len() == REKEY_REQUEST_SIZE || data.len() == REKEY_TOKEN_SIZE
    &&& before.contains_key(m.id())
    &&& session.client_address == address
    &&& in_window(session.last_sequence, sequence)
    &&& match m {
        Rekey::Request { session_id } => session.pending_nonce is None,
        Rekey::Token { session_id, nonce } => session.pending_nonce == Some(nonce),
    }
}

/// What REKEY leads to, inside the sequence window: a token on offer to who
/// asks for one, the current token to who confirms one.
pub open spec fn rekeys(
    before: Sessions,
    after: Sessions,
    done: Seq<Effect>,
    link: ClientLink,
    address: PeerAddr,
    sequence: u64,
    data: Seq<u8>,
    now: u64,
    fresh: Fresh,
) -> bool {
    let m = rekey_in(data);
    let id = m.id();
    if (data.len() != REKEY_REQUEST_SIZE && data.len() != REKEY_TOKEN_SIZE) || !before.contains_key(id)
        || before[id].client_address != address || !in_window(before[id].last_sequence, sequence) {
        after == before && done.len() == 0
    } else {
        let session = before[id].having_seen(sequence);
        match m {
            Rekey::Request { session_id } => {
                &&& after == before.insert(id, session.offering(fresh.nonce))
                &&& done == seq![rekeyed(link, id, session.offering(fresh.nonce).pending_nonce->0)]
            },
            Rekey::Token { session_id, nonce } => {
                &&& after == before.insert(id, session.confirmed(nonce, now))
                &&& done == seq![rekeyed(link, id, session.confirmed(nonce, now).server_nonce)]
            },
        }
    }
}

fn handle_rekey(
    manager: &mut SessionManager,
    link: ClientLink,
    client_address: PeerAddr,
    sequence: u64,
    payload: Bytes,
    now: u64,
    fresh: &Fresh,
) -> (actions: Vec<ServerAction>)
    requires
        old(manager).wf(),
    ensures
        final(manager).wf(),
        final(manager).dirty() == (old(manager).dirty() || changes_tokens(
            old(manager)@,
            client_address,
            sequence,
            bytes_view(payload),
        )),
        rekeys(
            old(manager)@,
            final(manager)@,
            effects(actions@),
            link,
            client_address,
            sequence,
            bytes_view(payload),
            now,
            *fresh,
        ),
{
    let ghost before = manager@;
    let ghost data = bytes_view(payload);
    let mut actions: Vec<ServerAction> = Vec::new();
    let rekey = match Rekey::decode(payload) {
        Ok(rekey) => rekey,
        Err(_) => return actions,
    };
    proof {
        law_rekey_roundtrip(rekey, rekey_in(data));
        assert(rekey == rekey_in(data));
    }
    let session_id = rekey.session_id();
    let mut session: Session = match manager.get(&session_id) {
        Some(session) => *session,
        None => return actions,
    };
    if session.client_address != client_address || !accept_sequence(&mut session.last_sequence, sequence) {
        return actions;
    }
    manager.insert(session);
    let offer = match rekey {
        Rekey::Request { session_id: _ } => manager.rekey_offer(&session_id, client_address, &fresh.nonce),
        Rekey::Token { session_id: _, nonce } => manager.rekey_confirm(&session_id, &nonce, client_address, now),
    };
    let nonce = match offer {
        Some(nonce) => nonce,
        None => return actions,
    };
    proof {
        let seen = before[session_id].having_seen(sequence);
        assert(session == seen);
        assert(manager@ =~= before.insert(session_id, manager@[session_id]));
    }
    let action = send_rekey(link, session_id, nonce);
    let ghost effect = action.effect();
    actions.push(action);
    assert(effects(actions@) =~= seq![effect]);
    actions
}

fn send_rekey(link: ClientLink, session_id: SessionId, nonce: [u8; SERVER_NONCE_SIZE]) -> (action: ServerAction)
    ensures
        action.effect() == rekeyed(link, session_id, nonce),
{
    let message = Rekey::token(session_id, nonce);
    send(link, FrameType::Rekey, 0, message.encode())
}

// ---------------------------------------------------------------------------
// CLOSE
// ---------------------------------------------------------------------------

/// What CLOSE leads to: the end of the session, and the same message back, if
/// it comes from where the session is and is inside the sequence window.
pub open spec fn closes(
    before: Sessions,
    after: Sessions,
    done: Seq<Effect>,
    link: ClientLink,
    address: PeerAddr,
    sequence: u64,
    data: Seq<u8>,
) -> bool {
    let m = close_in(data);
    if close_fault(data) is Some || !before.contains_key(m.session_id) || before[m.session_id].client_address
        != address || !in_window(before[m.session_id].last_sequence, sequence) {
        after == before && done.len() == 0
    } else {
        &&& after == before.remove(m.session_id)
        &&& done == seq![closed(link, m.session_id, m.reason)]
    }
}

/// Whether CLOSE ends its session.
pub open spec fn ends_one(before: Sessions, address: PeerAddr, sequence: u64, data: Seq<u8>) -> bool {
    let id = close_in(data).session_id;
    &&& close_fault(data) is None
    &&& before.contains_key(id)
    &&& before[id].client_address == address
    &&& in_window(before[id].last_sequence, sequence)
}

fn handle_close(
    manager: &mut SessionManager,
    link: ClientLink,
    client_address: PeerAddr,
    sequence: u64,
    payload: Bytes,
) -> (actions: Vec<ServerAction>)
    requires
        old(manager).wf(),
    ensures
        final(manager).wf(),
        final(manager).dirty() == (old(manager).dirty() || ends_one(
            old(manager)@,
            client_address,
            sequence,
            bytes_view(payload),
        )),
        closes(old(manager)@, final(manager)@, effects(actions@), link, client_address, sequence, bytes_view(payload)),
{
    let ghost data = bytes_view(payload);
    let mut actions: Vec<ServerAction> = Vec::new();
    let close = match Close::decode(payload) {
        Ok(close) => close,
        Err(_) => return actions,
    };
    proof {
        law_close_roundtrip(close, close_in(data));
        assert(close == close_in(data));
    }
    let ours: bool = match manager.get(&close.session_id) {
        Some(session) => {
            let mut last_sequence: u64 = session.last_sequence;
            session.client_address == client_address && accept_sequence(&mut last_sequence, sequence)
        },
        None => false,
    };
    if !ours {
        return actions;
    }
    manager.remove(&close.session_id);
    let action = send_close(link, close.session_id, close.reason);
    let ghost effect = action.effect();
    actions.push(action);
    assert(effects(actions@) =~= seq![effect]);
    actions
}

fn send_close(link: ClientLink, session_id: SessionId, reason: CloseReason) -> (action: ServerAction)
    ensures
        action.effect() == closed(link, session_id, reason),
{
    let message = Close::new(session_id, reason);
    send(link, FrameType::Close, 0, message.encode())
}

// ---------------------------------------------------------------------------
// All frames
// ---------------------------------------------------------------------------

/// What a frame leads to.
pub open spec fn handles(
    before: Sessions,
    after: Sessions,
    done: Seq<Effect>,
    keys: Map<u32, VerifyingKey>,
    revoked: Set<Seq<u8>>,
    link: ClientLink,
    address: PeerAddr,
    frame: Frame,
    now: u64,
    now_unix: u64,
    fresh: Fresh,
) -> bool {
    let sequence = frame.sequence;
    let data = frame.data();
    match frame.frame_type {
        FrameType::WhatsUpDude => greets(
            before,
            after,
            done,
            keys,
            revoked,
            link,
            address,
            sequence,
            data,
            now,
            now_unix,
            fresh,
        ),
        FrameType::BackAgainDude => comes_back(before, after, done, link, address, sequence, data, now, now_unix),
        FrameType::Data => forwards(before, after, done, address, sequence, data, now, now_unix),
        FrameType::Ping => answers(before, after, done, link, address, sequence, data, now, fresh),
        FrameType::Rekey => rekeys(before, after, done, link, address, sequence, data, now, fresh),
        FrameType::Close => closes(before, after, done, link, address, sequence, data),
        _ => after == before && done.len() == 0,
    }
}

/// Whether a frame does something that has to be stored: it opens a session,
/// gets one back, changes its tokens or ends it.
pub open spec fn to_store(
    before: Sessions,
    done: Seq<Effect>,
    keys: Map<u32, VerifyingKey>,
    revoked: Set<Seq<u8>>,
    link: ClientLink,
    address: PeerAddr,
    frame: Frame,
    now: u64,
    now_unix: u64,
) -> bool {
    let sequence = frame.sequence;
    let data = frame.data();
    match frame.frame_type {
        FrameType::WhatsUpDude => opened_one(done, keys, revoked, link, sequence, data, now_unix),
        FrameType::BackAgainDude => gets_back(before, data, now_unix),
        FrameType::Ping => brings_token(before, address, sequence, data, now),
        FrameType::Rekey => changes_tokens(before, address, sequence, data),
        FrameType::Close => ends_one(before, address, sequence, data),
        _ => false,
    }
}

/// Deals with one frame from a client. `now` counts milliseconds on a clock
/// that never goes back, `now_unix` seconds since 1970; `fresh` is used up by
/// a new session or a new resume token.
pub fn handle_frame<R: RevocationStore>(
    manager: &mut SessionManager,
    verifying: &SubscriptionVerifier<R>,
    link: ClientLink,
    client_address: PeerAddr,
    frame: Frame,
    now: u64,
    now_unix: u64,
    fresh: &Fresh,
) -> (actions: Vec<ServerAction>)
    requires
        old(manager).wf(),
    ensures
        final(manager).wf(),
        final(manager).dirty() == (old(manager).dirty() || to_store(
            old(manager)@,
            effects(actions@),
            verifying.keys@,
            verifying.revocations.ids(),
            link,
            client_address,
            frame,
            now,
            now_unix,
        )),
        handles(
            old(manager)@,
            final(manager)@,
            effects(actions@),
            verifying.keys@,
            verifying.revocations.ids(),
            link,
            client_address,
            frame,
            now,
            now_unix,
            *fresh,
        ),
{
    match frame.frame_type {
        FrameType::WhatsUpDude => handle_whats_up_dude(
            manager,
            verifying,
            link,
            client_address,
            frame.sequence,
            frame.payload,
            now,
            now_unix,
            fresh,
        ),
        FrameType::BackAgainDude => handle_back_again_dude(
            manager,
            link,
            client_address,
            frame.sequence,
            frame.payload,
            now,
            now_unix,
        ),
        FrameType::Data => handle_data(manager, client_address, frame.sequence, frame.payload, now, now_unix),
        FrameType::Ping => handle_ping(manager, link, client_address, frame.sequence, frame.payload, now, fresh),
        FrameType::Rekey => handle_rekey(manager, link, client_address, frame.sequence, frame.payload, now, fresh),
        FrameType::Close => handle_close(manager, link, client_address, frame.sequence, frame.payload),
        _ => Vec::new(),
    }
}

/// Deals with one datagram: a frame, or noise.
pub fn handle_packet<R: RevocationStore>(
    manager: &mut SessionManager,
    verifying: &SubscriptionVerifier<R>,
    stable_id: usize,
    client_address: PeerAddr,
    packet: Bytes,
    now: u64,
    now_unix: u64,
    fresh: &Fresh,
) -> (actions: Vec<ServerAction>)
    requires
        old(manager).wf(),
    ensures
        final(manager).wf(),
        crate::protocol::frame::frame_fault(bytes_view(packet)) is Some ==> final(manager)@ == old(manager)@
            && final(manager).dirty() == old(manager).dirty() && actions@.len() == 0,
        crate::protocol::frame::frame_fault(bytes_view(packet)) is None ==> exists|frame: Frame|
            {
                &&& frame.wire() == bytes_view(packet)
                &&& #[trigger] handles(
                    old(manager)@,
                    final(manager)@,
                    effects(actions@),
                    verifying.keys@,
                    verifying.revocations.ids(),
                    ClientLink::Quic { stable_id },
                    client_address,
                    frame,
                    now,
                    now_unix,
                    *fresh,
                )
                &&& final(manager).dirty() == (old(manager).dirty() || to_store(
                    old(manager)@,
                    effects(actions@),
                    verifying.keys@,
                    verifying.revocations.ids(),
                    ClientLink::Quic { stable_id },
                    client_address,
                    frame,
                    now,
                    now_unix,
                ))
            },
{
    match Frame::decode(packet) {
        Ok(frame) => {
            let ghost whole = frame;
            let actions = handle_frame(
                manager,
                verifying,
                ClientLink::Quic { stable_id },
                client_address,
                frame,
                now,
                now_unix,
                fresh,
            );
            assert(whole.wire() == bytes_view(packet));
            actions
        },
        Err(_) => Vec::new(),
    }
}

// ---------------------------------------------------------------------------
// From the tunnel device to a client
// ---------------------------------------------------------------------------

/// Whether a packet from the tunnel device goes to `session`: it has the
/// packet's destination and can be reached.
pub open spec fn reaches(sessions: Sessions, packet: Seq<u8>, session: Session) -> bool {
    &&& sessions.contains_key(session.id)
    &&& sessions[session.id] == session
    &&& destination_of(packet) == Some(session.ipv4@)
    &&& !(session.link is Detached)
}

/// The DATA frame that carries a packet to a session.
pub open spec fn carried(session: Session, packet_id: u64, packet: Seq<u8>) -> Effect {
    Effect::Send(
        session.link,
        frame_wire(FrameType::Data, packet_id, session.id@ + be_bytes(packet_id as nat, 8) + packet),
    )
}

/// Sends a packet from the tunnel device to the session with its destination
/// address, if that has bandwidth left, and counts it.
pub fn route_packet(manager: &mut SessionManager, packet_id: &mut u64, packet: &[u8], now: u64) -> (action: Option<
    ServerAction,
>)
    requires
        old(manager).wf(),
        packet@.len() <= MAX_DATA_PAYLOAD_SIZE,
    ensures
        final(manager).wf(),
        final(manager).dirty() == old(manager).dirty(),
        match action {
            Some(action) => exists|session: Session|
                {
                    let (allowed, rate) = session.rate.taking(packet@.len() as u64, now);
                    &&& #[trigger] reaches(old(manager)@, packet@, session)
                    &&& allowed
                    &&& final(manager)@ == old(manager)@.insert(session.id, Session { rate, ..session })
                    &&& action.effect() == carried(session, *old(packet_id), packet@)
                    &&& *final(packet_id) == next(*old(packet_id))
                },
            None => {
                &&& *final(packet_id) == *old(packet_id)
                &&& {
                    ||| final(manager)@ == old(manager)@ && forall|session: Session|
                        !#[trigger] reaches(old(manager)@, packet@, session)
                    ||| exists|session: Session|
                        {
                            let (allowed, rate) = session.rate.taking(packet@.len() as u64, now);
                            &&& #[trigger] reaches(old(manager)@, packet@, session)
                            &&& !allowed
                            &&& final(manager)@ == old(manager)@.insert(session.id, Session { rate, ..session })
                        }
                }
            },
        },
{
    let destination = match ipv4_destination(packet) {
        Some(destination) => destination,
        None => return None,
    };
    let ghost before = manager@;
    let found = manager.find_by_ipv4(destination);
    let session: Session = match found {
        Some(session) => *session,
        None => {
            assert forall|session: Session| !#[trigger] reaches(before, packet@, session) by {
                if reaches(before, packet@, session) {
                    assert(session.ipv4 =~= destination);
                }
            }
            return None;
        },
    };
    assert(reaches(before, packet@, session));
    let mut updated: Session = session;
    let allowed: bool = updated.rate.allow_at(packet.len() as u64, now);
    manager.insert(updated);
    if !allowed {
        return None;
    }
    let id: u64 = *packet_id;
    *packet_id = next_sequence(id);
    let data = Data::new(session.id, id, bytes_from_vec(vstd::slice::slice_to_vec(packet)));
    let action = send(session.link, FrameType::Data, id, data.encode());
    Some(action)
}

} // verus!
