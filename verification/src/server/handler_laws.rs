//! What each frame comes to on the server, told by what the client put in it.

use vstd::prelude::*;

use super::handler::{
    admission, effects, handle_frame, reaches, route_packet, token_in, Effect, ServerAction,
};
use super::session::{host_used, ClientLink, Fresh, Session, SessionId, SessionManager, Sessions};
use crate::auth::keys::VerifyingKey;
use crate::auth::token::{law_token_roundtrip, token_fault, SubscriptionClaims, SubscriptionToken};
use crate::auth::verify::{RevocationStore, SubscriptionVerifier};
use crate::net::PeerAddr;
use crate::protocol::access_denied_dude::{AccessDeniedDude, DenyReason};
use crate::protocol::all_good_dude::AllGoodDude;
use crate::protocol::back_again_dude::{back_again_in, law_back_again_roundtrip, BackAgainDude};
use crate::protocol::close::{close_in, law_close_roundtrip, Close, CloseReason};
use crate::protocol::data::{data_in, law_data_roundtrip, Data};
use crate::protocol::frame::{frame_wire, Frame, FrameType};
use crate::protocol::ping::{law_ping_roundtrip, ping_in, Ping};
use crate::protocol::pong::Pong;
use crate::protocol::rekey::{law_rekey_roundtrip, rekey_in, Rekey};
use crate::protocol::still_good_dude::StillGoodDude;
use crate::protocol::whats_up_dude::{law_whats_up_roundtrip, whats_up_in, WhatsUpDude};
use crate::wire::be_bytes;

verus! {

/// Whether a session takes a frame: it is there, the frame comes from where
/// it is, and is less than 1024 behind.
pub open spec fn listens(m: Sessions, id: SessionId, address: PeerAddr, sequence: u64) -> bool {
    m.contains_key(id) && m[id].client_address == address && m[id].last_sequence < sequence + 1024
}

/// A frame to a client.
pub open spec fn to_client(link: ClientLink, frame_type: FrameType, sequence: int, payload: Seq<u8>) -> Effect {
    Effect::Send(link, frame_wire(frame_type, sequence as u64, payload))
}

/// A PING that its session takes is answered with a PONG of the same number,
/// and with the token on offer; the session lives on from now. Any other PING
/// is not answered and changes nothing.
pub proof fn law_ping<R: RevocationStore>(
    m: &mut SessionManager,
    v: &SubscriptionVerifier<R>,
    link: ClientLink,
    address: PeerAddr,
    frame: Frame,
    now: u64,
    now_unix: u64,
    fresh: &Fresh,
    actions: Vec<ServerAction>,
    ping: Ping,
)
    requires
        call_ensures(handle_frame::<R>, (m, v, link, address, frame, now, now_unix, fresh), actions),
        frame.frame_type == FrameType::Ping,
        frame.data() == ping.wire(),
        frame.sequence < u64::MAX,
    ensures
        ({
            let s = old(m)@[ping.session_id];
            let t = final(m)@[ping.session_id];
            let done = effects(actions@);
            let taken = listens(old(m)@, ping.session_id, address, frame.sequence);
            let pong = Pong { session_id: ping.session_id, ping_id: ping.ping_id };
            &&& !taken ==> done.len() == 0 && final(m)@ == old(m)@
            &&& taken ==> {
                &&& done.len() >= 1
                &&& done[0] == to_client(link, FrameType::Pong, frame.sequence + 1, pong.wire())
                &&& final(m)@ == old(m)@.insert(ping.session_id, t)
                &&& t.last_activity == now
                &&& t.last_sequence >= frame.sequence && t.last_sequence >= s.last_sequence
                &&& t.pending_nonce is None ==> done.len() == 1
                &&& t.pending_nonce matches Some(nonce) ==> done.len() == 2 && done[1] == to_client(
                    link,
                    FrameType::Rekey,
                    0,
                    (Rekey::Token { session_id: ping.session_id, nonce }).wire(),
                )
                &&& s.pending_nonce is Some ==> t.pending_nonce == s.pending_nonce
                &&& s.pending_nonce is None ==> t.pending_nonce == (if now >= s.last_rekey + 3_600_000 {
                    Some(fresh.nonce)
                } else {
                    None
                })
                &&& t.has_token(s.server_nonce)
            }
        }),
{
    law_ping_roundtrip(ping, ping_in(frame.data()));
}

/// A packet in DATA goes to the device, unchanged, if and only if its session
/// takes it, has paid until later than now, has bandwidth left, and the packet
/// does not lie about its source: bytes 12 to 15 of an IPv4 packet are the
/// session's address. It is no sign of life.
pub proof fn law_data<R: RevocationStore>(
    m: &mut SessionManager,
    v: &SubscriptionVerifier<R>,
    link: ClientLink,
    address: PeerAddr,
    frame: Frame,
    now: u64,
    now_unix: u64,
    fresh: &Fresh,
    actions: Vec<ServerAction>,
    data: Data,
)
    requires
        call_ensures(handle_frame::<R>, (m, v, link, address, frame, now, now_unix, fresh), actions),
        frame.frame_type == FrameType::Data,
        frame.data() == data.wire(),
        data.packet().len() <= 65_536,
    ensures
        ({
            let id = data.session_id;
            let packet = data.packet();
            let s = old(m)@[id];
            let t = final(m)@[id];
            let taken = listens(old(m)@, id, address, frame.sequence) && now_unix < s.subscription_expires_at;
            let paid = s.rate.taking(packet.len() as u64, now);
            let honest = packet.len() >= 20 && packet[0] / 16 == 4 ==> packet[12] == s.ipv4[0] && packet[13]
                == s.ipv4[1] && packet[14] == s.ipv4[2] && packet[15] == s.ipv4[3];
            &&& taken && paid.0 && honest ==> effects(actions@) == seq![Effect::Packet(packet)]
            &&& !(taken && paid.0 && honest) ==> actions@.len() == 0
            &&& !taken ==> final(m)@ == old(m)@
            &&& taken ==> final(m)@ == old(m)@.insert(
                id,
                Session {
                    rate: paid.1,
                    last_sequence: if frame.sequence > s.last_sequence {
                        frame.sequence
                    } else {
                        s.last_sequence
                    },
                    ..s
                },
            )
            &&& final(m).dirty() == old(m).dirty()
        }),
{
    law_data_roundtrip(data, data_in(frame.data()));
    let packet = data.packet();
    let s = old(m)@[data.session_id];
    if packet.len() >= 20 {
        let four = packet.subrange(12, 16);
        assert(four[0] == packet[12] && four[1] == packet[13] && four[2] == packet[14] && four[3] == packet[15]);
        assert(packet[12] == s.ipv4[0] && packet[13] == s.ipv4[1] && packet[14] == s.ipv4[2] && packet[15]
            == s.ipv4[3] ==> four =~= s.ipv4@);
    }
    assert(effects(actions@).len() == actions@.len());
}

/// CLOSE ends the session that takes it, is answered with the same, and what
/// it changed is stored; any other changes nothing.
pub proof fn law_close<R: RevocationStore>(
    m: &mut SessionManager,
    v: &SubscriptionVerifier<R>,
    link: ClientLink,
    address: PeerAddr,
    frame: Frame,
    now: u64,
    now_unix: u64,
    fresh: &Fresh,
    actions: Vec<ServerAction>,
    close: Close,
)
    requires
        call_ensures(handle_frame::<R>, (m, v, link, address, frame, now, now_unix, fresh), actions),
        frame.frame_type == FrameType::Close,
        frame.data() == close.wire(),
    ensures
        ({
            let taken = listens(old(m)@, close.session_id, address, frame.sequence);
            &&& taken ==> {
                &&& final(m)@ == old(m)@.remove(close.session_id)
                &&& effects(actions@) == seq![to_client(link, FrameType::Close, 0, close.wire())]
                &&& final(m).dirty()
            }
            &&& !taken ==> final(m)@ == old(m)@ && actions@.len() == 0 && final(m).dirty() == old(m).dirty()
        }),
{
    law_close_roundtrip(close, close_in(frame.data()));
    assert(effects(actions@).len() == actions@.len());
}

/// Who asks for a resume token is sent the one on offer, or the fresh one,
/// which is then on offer.
pub proof fn law_rekey_request<R: RevocationStore>(
    m: &mut SessionManager,
    v: &SubscriptionVerifier<R>,
    link: ClientLink,
    address: PeerAddr,
    frame: Frame,
    now: u64,
    now_unix: u64,
    fresh: &Fresh,
    actions: Vec<ServerAction>,
    id: SessionId,
)
    requires
        call_ensures(handle_frame::<R>, (m, v, link, address, frame, now, now_unix, fresh), actions),
        frame.frame_type == FrameType::Rekey,
        frame.data() == (Rekey::Request { session_id: id }).wire(),
    ensures
        ({
            let taken = listens(old(m)@, id, address, frame.sequence);
            let s = old(m)@[id];
            let t = final(m)@[id];
            let nonce = match s.pending_nonce {
                Some(held) => held,
                None => fresh.nonce,
            };
            &&& taken ==> {
                &&& effects(actions@) == seq![
                    to_client(link, FrameType::Rekey, 0, (Rekey::Token { session_id: id, nonce }).wire()),
                ]
                &&& final(m)@ == old(m)@.insert(id, t)
                &&& t == (Session { pending_nonce: Some(nonce), last_sequence: t.last_sequence, ..s })
                &&& t.last_sequence >= frame.sequence && t.last_sequence >= s.last_sequence
                &&& s.pending_nonce is None ==> final(m).dirty()
            }
            &&& !taken ==> final(m)@ == old(m)@ && actions@.len() == 0
        }),
{
    law_rekey_roundtrip(Rekey::Request { session_id: id }, rekey_in(frame.data()));
    assert(effects(actions@).len() == actions@.len());
}

/// Who confirms the token on offer has it as the current one from now on, and
/// can still come back with the one before; the answer is the current token.
pub proof fn law_rekey_confirmation<R: RevocationStore>(
    m: &mut SessionManager,
    v: &SubscriptionVerifier<R>,
    link: ClientLink,
    address: PeerAddr,
    frame: Frame,
    now: u64,
    now_unix: u64,
    fresh: &Fresh,
    actions: Vec<ServerAction>,
    id: SessionId,
    nonce: [u8; 32],
)
    requires
        call_ensures(handle_frame::<R>, (m, v, link, address, frame, now, now_unix, fresh), actions),
        frame.frame_type == FrameType::Rekey,
        frame.data() == (Rekey::Token { session_id: id, nonce }).wire(),
    ensures
        ({
            let taken = listens(old(m)@, id, address, frame.sequence);
            let s = old(m)@[id];
            let t = final(m)@[id];
            &&& taken ==> {
                &&& effects(actions@) == seq![
                    to_client(
                        link,
                        FrameType::Rekey,
                        0,
                        (Rekey::Token { session_id: id, nonce: t.server_nonce }).wire(),
                    ),
                ]
                &&& final(m)@ == old(m)@.insert(id, t)
                &&& t.last_sequence >= frame.sequence && t.last_sequence >= s.last_sequence
                &&& s.pending_nonce == Some(nonce) ==> final(m).dirty() && t == (Session {
                    server_nonce: nonce,
                    prev_nonce: Some(s.server_nonce),
                    pending_nonce: None,
                    last_rekey: now,
                    last_sequence: t.last_sequence,
                    ..s
                })
                &&& s.pending_nonce != Some(nonce) ==> t == (Session { last_sequence: t.last_sequence, ..s })
            }
            &&& !taken ==> final(m)@ == old(m)@ && actions@.len() == 0
        }),
{
    law_rekey_roundtrip(Rekey::Token { session_id: id, nonce }, rekey_in(frame.data()));
    assert(effects(actions@).len() == actions@.len());
}

/// Who comes back with a token of a session that is paid for gets it back,
/// counted from the number of that frame, wherever it comes from and however
/// far behind that number is. Who comes back after the subscription ran out
/// is told when it did. Anybody else is not answered.
pub proof fn law_back_again<R: RevocationStore>(
    m: &mut SessionManager,
    v: &SubscriptionVerifier<R>,
    link: ClientLink,
    address: PeerAddr,
    frame: Frame,
    now: u64,
    now_unix: u64,
    fresh: &Fresh,
    actions: Vec<ServerAction>,
    back: BackAgainDude,
)
    requires
        call_ensures(handle_frame::<R>, (m, v, link, address, frame, now, now_unix, fresh), actions),
        frame.frame_type == FrameType::BackAgainDude,
        frame.data() == back.wire(),
        frame.sequence < u64::MAX,
    ensures
        ({
            let id = back.session_id;
            let s = old(m)@[id];
            let t = final(m)@[id];
            let token = back.resume_token;
            let known = old(m)@.contains_key(id);
            let late = now_unix >= s.subscription_expires_at;
            let shown = s.server_nonce == token || s.prev_nonce == Some(token) || s.pending_nonce == Some(token);
            let good = StillGoodDude {
                session_id: id,
                assigned_ipv4: s.ipv4,
                mtu: 1100,
                capabilities: s.capabilities,
            };
            let over = AccessDeniedDude {
                reason: DenyReason::SubscriptionExpired,
                expires_at: s.subscription_expires_at,
            };
            &&& known && !late && shown ==> {
                &&& effects(actions@) == seq![
                    to_client(link, FrameType::StillGoodDude, frame.sequence + 1, good.wire()),
                ]
                &&& final(m)@ == old(m)@.insert(id, t)
                &&& t == (Session {
                    client_address: address,
                    link,
                    last_sequence: frame.sequence,
                    last_activity: now,
                    server_nonce: t.server_nonce,
                    prev_nonce: t.prev_nonce,
                    pending_nonce: t.pending_nonce,
                    ..s
                })
                &&& t.has_token(token)
                &&& final(m).dirty()
            }
            &&& known && late ==> final(m)@ == old(m)@ && effects(actions@) == seq![
                to_client(link, FrameType::AccessDeniedDude, frame.sequence + 1, over.wire()),
            ]
            &&& !known || (!late && !shown) ==> final(m)@ == old(m)@ && actions@.len() == 0
        }),
{
    law_back_again_roundtrip(back, back_again_in(frame.data()));
    assert(effects(actions@).len() == actions@.len());
}

/// A token that a known key signed, whose time has come and has not run out,
/// and that was not revoked, lets its bearer in; five minutes are allowed for
/// the clocks. Otherwise the bearer is told what is wrong, and when the
/// subscription ran out.
pub proof fn law_admission(
    keys: Map<u32, VerifyingKey>,
    revoked: Set<Seq<u8>>,
    token: SubscriptionToken,
    now: u64,
)
    ensures
        ({
            let c = token.claims;
            let signed = keys.contains_key(c.key_id) && token.signed_by(keys[c.key_id]);
            let timely = c.not_before < c.expires_at && c.issued_at <= now + 300 && c.not_before <= now + 300;
            let answer = admission(keys, revoked, token.wire(), now);
            &&& answer is Ok <==> signed && timely && now < c.expires_at && !revoked.contains(c.token_id@)
            &&& answer matches Ok(claims) ==> claims == c
            &&& !keys.contains_key(c.key_id) ==> answer == Err::<SubscriptionClaims, (DenyReason, u64)>(
                (DenyReason::UnknownSigningKey, 0),
            )
            &&& keys.contains_key(c.key_id) && !signed ==> answer == Err::<SubscriptionClaims, (DenyReason, u64)>(
                (DenyReason::InvalidToken, 0),
            )
            &&& signed && c.not_before < c.expires_at && c.issued_at <= now + 300 && c.not_before > now + 300
                ==> answer == Err::<SubscriptionClaims, (DenyReason, u64)>((DenyReason::SubscriptionNotActive, 0))
            &&& signed && (c.not_before >= c.expires_at || c.issued_at > now + 300) ==> answer == Err::<
                SubscriptionClaims,
                (DenyReason, u64),
            >((DenyReason::InvalidToken, 0))
            &&& signed && timely && now >= c.expires_at ==> answer == Err::<SubscriptionClaims, (DenyReason, u64)>(
                (DenyReason::SubscriptionExpired, c.expires_at),
            )
            &&& signed && timely && now < c.expires_at && revoked.contains(c.token_id@) ==> answer == Err::<
                SubscriptionClaims,
                (DenyReason, u64),
            >((DenyReason::TokenRevoked, 0))
        }),
        forall|bytes: Seq<u8>|
            token_fault(bytes) is Some ==> #[trigger] admission(keys, revoked, bytes, now) == Err::<
                SubscriptionClaims,
                (DenyReason, u64),
            >((DenyReason::InvalidToken, 0)),
{
    law_token_roundtrip(token, token_in(token.wire()));
}

/// Whose token does is let in, unless each address is taken: the session is
/// its subscription's, at the place that the greeting came from, with what
/// both sides can do; the last message says so, and goes after a CLOSE to
/// each session that made room. Whose token does not is told why and changes
/// nothing.
pub proof fn law_greeting<R: RevocationStore>(
    m: &mut SessionManager,
    v: &SubscriptionVerifier<R>,
    link: ClientLink,
    address: PeerAddr,
    frame: Frame,
    now: u64,
    now_unix: u64,
    fresh: &Fresh,
    actions: Vec<ServerAction>,
    greeting: WhatsUpDude,
    host: u8,
)
    requires
        call_ensures(handle_frame::<R>, (m, v, link, address, frame, now, now_unix, fresh), actions),
        frame.frame_type == FrameType::WhatsUpDude,
        frame.data() == greeting.wire(),
        0 < greeting.token().len() <= 2048,
        frame.sequence < u64::MAX,
        2 <= host <= 254,
    ensures
        ({
            let done = effects(actions@);
            let answer = admission(v.keys@, v.revocations.ids(), greeting.token(), now_unix);
            match answer {
                Err((reason, expires_at)) => {
                    &&& final(m)@ == old(m)@
                    &&& done == seq![
                        to_client(
                            link,
                            FrameType::AccessDeniedDude,
                            frame.sequence + 1,
                            (AccessDeniedDude { reason, expires_at }).wire(),
                        ),
                    ]
                },
                Ok(claims) => {
                    let s = final(m)@[fresh.session_id];
                    let free = forall|id: SessionId| #[trigger]
                        old(m)@.contains_key(id) ==> old(m)@[id].ipv4[3] != host;
                    free ==> {
                        &&& final(m)@.contains_key(fresh.session_id)
                        &&& final(m).dirty()
                        &&& s.id == fresh.session_id
                        &&& s.server_nonce == fresh.nonce
                        &&& s.client_address == address && s.link == link
                        &&& s.capabilities == greeting.capabilities & 13
                        &&& s.client_nonce == greeting.client_nonce
                        &&& s.last_sequence == frame.sequence
                        &&& s.last_activity == now && s.created_at == now && s.last_rekey == now
                        &&& s.client_id == claims.client_id && s.token_id == claims.token_id
                        &&& s.subscription_expires_at == claims.expires_at
                        &&& s.plan == claims.plan && s.device_limit == claims.device_limit
                        &&& s.max_mbps == claims.max_mbps && s.rate.max_mbps == claims.max_mbps
                        &&& s.ipv4[0] == 10 && s.ipv4[1] == 77 && s.ipv4[2] == 0 && 2 <= s.ipv4[3] <= 254
                        &&& done.len() > 0
                        &&& done.last() == to_client(
                            link,
                            FrameType::AllGoodDude,
                            frame.sequence + 1,
                            (AllGoodDude {
                                protocol_version: 1,
                                session_id: s.id,
                                assigned_ipv4: s.ipv4,
                                mtu: 1100,
                                capabilities: s.capabilities,
                                server_nonce: s.server_nonce,
                            }).wire(),
                        )
                        &&& forall|i: int|
                            0 <= i < done.len() - 1 ==> (exists|id: SessionId|
                                old(m)@.contains_key(id) && old(m)@[id].client_id == claims.client_id
                                    && #[trigger] done[i] == to_client(
                                    #[trigger] old(m)@[id].link,
                                    FrameType::Close,
                                    0,
                                    (Close { session_id: id, reason: CloseReason::Replaced }).wire(),
                                ))
                    }
                },
            }
        }),
{
    law_whats_up_roundtrip(greeting, whats_up_in(frame.data()));
    let done = effects(actions@);
    let answer = admission(v.keys@, v.revocations.ids(), greeting.token(), now_unix);
    old(m).lemma_finite();
    if answer is Ok && (forall|id: SessionId| #[trigger] old(m)@.contains_key(id) ==> old(m)@[id].ipv4[3] != host) {
        let claims = answer->Ok_0;
        lemma_greeting(
            old(m)@,
            final(m)@,
            done,
            v.keys@,
            v.revocations.ids(),
            link,
            address,
            frame.sequence,
            frame.data(),
            now,
            now_unix,
            *fresh,
            claims,
            host,
        );
        let m13 = greeting.capabilities & 13;
        let (kicked, message) = choose|kicked: Seq<super::session::KickedSession>, message: AllGoodDude|
            {
                &&& #[trigger] super::session::created(
                    old(m)@,
                    claims,
                    kicked,
                    super::session::begun(
                        address,
                        link,
                        m13,
                        greeting.client_nonce,
                        frame.sequence,
                        claims,
                        message.assigned_ipv4,
                        now,
                        *fresh,
                    ),
                    1100,
                    message,
                    final(m)@,
                )
                &&& done == super::handler::close_notices(kicked).push(
                    Effect::Send(
                        link,
                        frame_wire(
                            FrameType::AllGoodDude,
                            crate::protocol::frame::next(frame.sequence),
                            message.wire(),
                        ),
                    ),
                )
                &&& forall|i: int|
                    0 <= i < kicked.len() ==> old(m)@.contains_key((#[trigger] kicked[i]).id)
                        && old(m)@[kicked[i].id].client_id == claims.client_id && kicked[i].link
                        == old(m)@[kicked[i].id].link
            };
        let notices = super::handler::close_notices(kicked);
        super::handler::lemma_answers_differ(notices, link, frame.sequence, message);
        super::laws::law_address_range(
            old(m)@,
            claims,
            kicked,
            super::session::begun(
                address,
                link,
                m13,
                greeting.client_nonce,
                frame.sequence,
                claims,
                message.assigned_ipv4,
                now,
                *fresh,
            ),
            1100,
            message,
            final(m)@,
        );
        assert(message.assigned_ipv4@[0] == 10 && message.assigned_ipv4@[1] == 77 && message.assigned_ipv4@[2] == 0);
        assert forall|i: int| 0 <= i < done.len() - 1 implies (exists|id: SessionId|
            old(m)@.contains_key(id) && old(m)@[id].client_id == claims.client_id && #[trigger] done[i] == to_client(
                #[trigger] old(m)@[id].link,
                FrameType::Close,
                0,
                (Close { session_id: id, reason: CloseReason::Replaced }).wire(),
            )) by {
            let id = kicked[i].id;
            assert(done[i] == notices[i]);
            assert(done[i] == to_client(
                old(m)@[id].link,
                FrameType::Close,
                0,
                (Close { session_id: id, reason: CloseReason::Replaced }).wire(),
            ));
        }
    }
}

proof fn lemma_greeting(
    before: Sessions,
    after: Sessions,
    done: Seq<Effect>,
    keys: Map<u32, VerifyingKey>,
    revoked: Set<Seq<u8>>,
    link: ClientLink,
    address: PeerAddr,
    sequence: u64,
    data: Seq<u8>,
    now: u64,
    now_unix: u64,
    fresh: Fresh,
    claims: SubscriptionClaims,
    host: u8,
)
    requires
        super::handler::greets(
            before,
            after,
            done,
            keys,
            revoked,
            link,
            address,
            sequence,
            data,
            now,
            now_unix,
            fresh,
        ),
        crate::protocol::whats_up_dude::whats_up_fault(data) is None,
        admission(keys, revoked, whats_up_in(data).token(), now_unix) == Ok::<SubscriptionClaims, (DenyReason, u64)>(
            claims,
        ),
        before.dom().finite(),
        2 <= host <= 254,
        forall|id: SessionId| #[trigger] before.contains_key(id) ==> before[id].ipv4[3] != host,
    ensures
        exists|kicked: Seq<super::session::KickedSession>, message: AllGoodDude|
            {
                &&& #[trigger] super::session::created(
                    before,
                    claims,
                    kicked,
                    super::session::begun(
                        address,
                        link,
                        whats_up_in(data).capabilities & 13,
                        whats_up_in(data).client_nonce,
                        sequence,
                        claims,
                        message.assigned_ipv4,
                        now,
                        fresh,
                    ),
                    1100,
                    message,
                    after,
                )
                &&& done == super::handler::close_notices(kicked).push(
                    Effect::Send(
                        link,
                        frame_wire(FrameType::AllGoodDude, crate::protocol::frame::next(sequence), message.wire()),
                    ),
                )
                &&& forall|i: int|
                    0 <= i < kicked.len() ==> before.contains_key((#[trigger] kicked[i]).id)
                        && before[kicked[i].id].client_id == claims.client_id && kicked[i].link
                        == before[kicked[i].id].link
            },
{
    if exists|kicked: Seq<super::session::KickedSession>| #[trigger]
        super::session::limited(before, claims, kicked, after) && forall|h: u8|
            2 <= h <= 254 ==> #[trigger] host_used(after, h) {
        let kicked = choose|kicked: Seq<super::session::KickedSession>| #[trigger]
            super::session::limited(before, claims, kicked, after) && forall|h: u8|
                2 <= h <= 254 ==> #[trigger] host_used(after, h);
        super::laws::lemma_limited(before, claims, kicked, after);
        assert(host_used(after, host));
        let id = choose|id: SessionId| #[trigger] after.contains_key(id) && after[id].ipv4[3] == host;
        assert(before.contains_key(id));
    }
    let m = whats_up_in(data);
    let (kicked, message) = choose|kicked: Seq<super::session::KickedSession>, message: AllGoodDude|
        {
            &&& #[trigger] super::session::created(
                before,
                claims,
                kicked,
                super::session::begun(
                    address,
                    link,
                    m.capabilities & 13,
                    m.client_nonce,
                    sequence,
                    claims,
                    message.assigned_ipv4,
                    now,
                    fresh,
                ),
                1100,
                message,
                after,
            )
            &&& done == super::handler::close_notices(kicked).push(
                Effect::Send(
                    link,
                    frame_wire(FrameType::AllGoodDude, crate::protocol::frame::next(sequence), message.wire()),
                ),
            )
        };
    let rest = choose|rest: Sessions| #[trigger] super::session::limited(before, claims, kicked, rest);
    if claims.device_limit != 255 {
        super::laws::lemma_who_is_kicked(
            before,
            claims.client_id,
            super::session::device_cap(claims.device_limit),
            kicked,
            rest,
        );
    }
}

/// Frames that only a server sends come to nothing.
pub proof fn law_other_frames<R: RevocationStore>(
    m: &mut SessionManager,
    v: &SubscriptionVerifier<R>,
    link: ClientLink,
    address: PeerAddr,
    frame: Frame,
    now: u64,
    now_unix: u64,
    fresh: &Fresh,
    actions: Vec<ServerAction>,
)
    requires
        call_ensures(handle_frame::<R>, (m, v, link, address, frame, now, now_unix, fresh), actions),
        frame.frame_type == FrameType::Pong || frame.frame_type == FrameType::AllGoodDude || frame.frame_type
            == FrameType::StillGoodDude || frame.frame_type == FrameType::AccessDeniedDude,
    ensures
        final(m)@ == old(m)@,
        actions@.len() == 0,
        final(m).dirty() == old(m).dirty(),
{
    assert(effects(actions@).len() == actions@.len());
}

/// A packet from the device goes to the one session that has its destination
/// (bytes 16 to 19 of an IPv4 packet) and a link, whole and with the next
/// number, if that session has bandwidth left; without such a session it goes
/// nowhere.
pub proof fn law_packet_to_client(
    m: &mut SessionManager,
    packet_id: &mut u64,
    packet: &[u8],
    now: u64,
    action: Option<ServerAction>,
    id: SessionId,
)
    requires
        call_ensures(route_packet, (m, packet_id, packet, now), action),
        super::laws::addresses_distinct(old(m)@),
        old(m)@.contains_key(id),
        old(m)@[id].id == id,
        packet@.len() >= 20,
        *old(packet_id) < u64::MAX,
        ({
            let s = old(m)@[id];
            &&& packet@[0] / 16 == 4
            &&& s.link != ClientLink::Detached
            &&& packet@[16] == s.ipv4[0] && packet@[17] == s.ipv4[1] && packet@[18] == s.ipv4[2] && packet@[19]
                == s.ipv4[3]
        }),
    ensures
        ({
            let s = old(m)@[id];
            let paid = s.rate.taking(packet@.len() as u64, now);
            &&& final(m)@ == old(m)@.insert(id, Session { rate: paid.1, ..s })
            &&& paid.0 ==> {
                &&& action matches Some(action)
                &&& action.effect() == to_client(
                    s.link,
                    FrameType::Data,
                    *old(packet_id) as int,
                    id@ + be_bytes(*old(packet_id) as nat, 8) + packet@,
                )
                &&& *final(packet_id) == *old(packet_id) + 1
            }
            &&& !paid.0 ==> action is None && *final(packet_id) == *old(packet_id)
        }),
{
    let s = old(m)@[id];
    assert(packet@.subrange(16, 20) =~= s.ipv4@);
    assert(reaches(old(m)@, packet@, s));
    assert forall|other: Session| #[trigger] reaches(old(m)@, packet@, other) implies other == s by {
        assert(other.ipv4@ == s.ipv4@);
        assert(other.ipv4[3] == s.ipv4[3]);
        assert(old(m)@.contains_key(other.id) && old(m)@.contains_key(id));
    }
}

/// A packet for nobody who is reachable goes nowhere.
pub proof fn law_packet_for_nobody(
    m: &mut SessionManager,
    packet_id: &mut u64,
    packet: &[u8],
    now: u64,
    action: Option<ServerAction>,
)
    requires
        call_ensures(route_packet, (m, packet_id, packet, now), action),
        packet@.len() < 20 || packet@[0] / 16 != 4 || forall|id: SessionId| #[trigger]
            old(m)@.contains_key(id) ==> old(m)@[id].link == ClientLink::Detached || old(m)@[id].ipv4@
                != packet@.subrange(16, 20),
    ensures
        action is None,
        final(m)@ == old(m)@,
        *final(packet_id) == *old(packet_id),
{
    assert forall|session: Session| !#[trigger] reaches(old(m)@, packet@, session) by {
        if reaches(old(m)@, packet@, session) {
            assert(old(m)@.contains_key(session.id));
        }
    }
}

} // verus!
