//! What the calls on the table of sessions come to, one by one and together.

use vstd::prelude::*;

use super::rate::RateLimit;
use super::session::{
    accept_sequence, ClientLink, CreateSessionError, Fresh, KickedSession, Session, SessionId, SessionManager,
};
use crate::auth::token::SubscriptionClaims;
use crate::net::PeerAddr;
use crate::protocol::all_good_dude::{AllGoodDude, SERVER_NONCE_SIZE};
use crate::protocol::still_good_dude::StillGoodDude;

verus! {

/// A client that shows a token of its session gets the session back: where it
/// is now, with the address, the limits and the subscription that it had, and
/// with its frames counted from the number that it comes back with.
pub proof fn law_right_token_resumes(
    m: &mut SessionManager,
    id: &SessionId,
    token: &[u8; SERVER_NONCE_SIZE],
    address: PeerAddr,
    link: ClientLink,
    sequence: u64,
    mtu: u16,
    now: u64,
    result: Option<StillGoodDude>,
)
    requires
        call_ensures(SessionManager::resume_session, (m, id, token, address, link, sequence, mtu, now), result),
        old(m)@.contains_key(*id),
        ({
            let s = old(m)@[*id];
            s.server_nonce == *token || s.prev_nonce == Some(*token) || s.pending_nonce == Some(*token)
        }),
    ensures
        ({
            let s = old(m)@[*id];
            let r = final(m)@[*id];
            &&& result matches Some(message)
            &&& message.session_id == *id
            &&& message.assigned_ipv4 == s.ipv4
            &&& message.mtu == mtu
            &&& message.capabilities == s.capabilities
            &&& final(m)@.contains_key(*id)
            &&& r.last_sequence == sequence
            &&& r.last_activity == now
            &&& r.client_address == address
            &&& r.link == link
            &&& r.ipv4 == s.ipv4
            &&& r.capabilities == s.capabilities
            &&& r.subscription_expires_at == s.subscription_expires_at
            &&& r.max_mbps == s.max_mbps
            &&& r.rate == s.rate
            &&& r.device_limit == s.device_limit
            &&& r.client_id == s.client_id
            &&& r.token_id == s.token_id
            &&& r.plan == s.plan
            &&& r.created_at == s.created_at
            &&& r.last_rekey == s.last_rekey
            &&& r.client_nonce == s.client_nonce
            &&& r.server_nonce == (if s.pending_nonce == Some(*token) {
                *token
            } else {
                s.server_nonce
            })
        }),
        forall|other: SessionId|
            other != *id ==> (#[trigger] final(m)@.contains_key(other) <==> old(m)@.contains_key(other)) && (old(
                m,
            )@.contains_key(other) ==> final(m)@[other] == old(m)@[other]),
        final(m).dirty(),
{
}

/// Without one of its three tokens nobody gets a session back, and nothing
/// changes.
pub proof fn law_wrong_token_resumes_nothing(
    m: &mut SessionManager,
    id: &SessionId,
    token: &[u8; SERVER_NONCE_SIZE],
    address: PeerAddr,
    link: ClientLink,
    sequence: u64,
    mtu: u16,
    now: u64,
    result: Option<StillGoodDude>,
)
    requires
        call_ensures(SessionManager::resume_session, (m, id, token, address, link, sequence, mtu, now), result),
        old(m)@.contains_key(*id) ==> {
            let s = old(m)@[*id];
            s.server_nonce != *token && s.prev_nonce != Some(*token) && s.pending_nonce != Some(*token)
        },
    ensures
        result is None,
        final(m)@ == old(m)@,
        final(m).dirty() == old(m).dirty(),
{
}

/// A session that was resumed takes every frame from the number on that it
/// came back with, whatever it had counted before.
pub proof fn law_resumed_session_takes_frames(
    m: &mut SessionManager,
    id: &SessionId,
    token: &[u8; SERVER_NONCE_SIZE],
    address: PeerAddr,
    link: ClientLink,
    sequence: u64,
    mtu: u16,
    now: u64,
    message: StillGoodDude,
    last: &mut u64,
    incoming: u64,
    taken: bool,
)
    requires
        call_ensures(
            SessionManager::resume_session,
            (m, id, token, address, link, sequence, mtu, now),
            Some(message),
        ),
        *old(last) == final(m)@[*id].last_sequence,
        call_ensures(accept_sequence, (last, incoming), taken),
        incoming >= sequence,
    ensures
        taken,
        *final(last) == incoming,
{
}

/// A frame is taken unless it is 1024 or more behind the highest number seen;
/// what is remembered is the highest number.
pub proof fn law_window_is_1024(last: &mut u64, incoming: u64, taken: bool)
    requires
        call_ensures(accept_sequence, (last, incoming), taken),
    ensures
        taken <==> *old(last) < incoming + 1024,
        incoming <= *final(last) && *old(last) <= *final(last),
        *final(last) == incoming || *final(last) == *old(last),
{
}

/// A PING from where its session is, and not too late, is noted: the session
/// lives on from now. Nothing else of it changes but the number seen last and
/// the token on offer, which comes an hour after the last one.
pub proof fn law_ping_is_noted(
    m: &mut SessionManager,
    id: &SessionId,
    address: PeerAddr,
    sequence: u64,
    now: u64,
    fresh: &[u8; SERVER_NONCE_SIZE],
    offer: Option<Option<[u8; SERVER_NONCE_SIZE]>>,
)
    requires
        call_ensures(SessionManager::touch_session, (m, id, address, sequence, now, fresh), offer),
    ensures
        ({
            let s = old(m)@[*id];
            let t = final(m)@[*id];
            let answered = old(m)@.contains_key(*id) && s.client_address == address && s.last_sequence < sequence
                + 1024;
            &&& offer is Some <==> answered
            &&& !answered ==> final(m)@ == old(m)@
            &&& answered ==> {
                &&& t.last_activity == now
                &&& t.last_sequence >= sequence && t.last_sequence >= s.last_sequence
                &&& t.last_sequence == sequence || t.last_sequence == s.last_sequence
                &&& t == (Session {
                    last_activity: t.last_activity,
                    last_sequence: t.last_sequence,
                    pending_nonce: t.pending_nonce,
                    ..s
                })
                &&& offer == Some(t.pending_nonce)
                &&& s.pending_nonce is Some ==> t.pending_nonce == s.pending_nonce
                &&& s.pending_nonce is None && now >= s.last_rekey + 3_600_000 ==> t.pending_nonce == Some(*fresh)
                &&& s.pending_nonce is None && now < s.last_rekey + 3_600_000 ==> t.pending_nonce is None
                &&& final(m)@ == old(m)@.insert(*id, t)
            }
        }),
{
}

/// Sweeping ends the sessions whose last sign of life is five minutes old or
/// older, and no others.
pub proof fn law_sweep_ends_the_silent(m: &mut SessionManager, now: u64, removed: usize, id: SessionId)
    requires
        call_ensures(SessionManager::remove_expired, (m, now), removed),
        old(m)@.contains_key(id),
    ensures
        final(m)@.contains_key(id) <==> now < old(m)@[id].last_activity + 300_000,
        final(m)@.contains_key(id) ==> final(m)@[id] == old(m)@[id],
        !final(m)@.contains_key(id) ==> removed > 0 && final(m).dirty(),
        forall|other: SessionId| #[trigger] final(m)@.contains_key(other) ==> old(m)@.contains_key(other),
{
    let gone = old(m)@.dom().filter(|x: SessionId| old(m)@[x].expired(now));
    old(m).lemma_finite();
    if !final(m)@.contains_key(id) {
        assert(gone.contains(id));
        assert(gone.finite());
        assert(gone =~= old(m)@.dom().filter(
            |x: SessionId| (|s: Session| s.expired(now))(old(m)@[x]),
        ));
        assert(gone.len() > 0) by {
            if gone.len() == 0 {
                assert(gone =~= Set::empty());
            }
        }
    }
}

/// A session that is answered with a PONG is not swept away in the five
/// minutes that follow.
pub proof fn law_pings_keep_alive(
    m: &mut SessionManager,
    id: &SessionId,
    address: PeerAddr,
    sequence: u64,
    now: u64,
    fresh: &[u8; SERVER_NONCE_SIZE],
    offer: Option<[u8; SERVER_NONCE_SIZE]>,
    swept: &mut SessionManager,
    later: u64,
    removed: usize,
)
    requires
        call_ensures(SessionManager::touch_session, (m, id, address, sequence, now, fresh), Some(offer)),
        old(swept)@ == final(m)@,
        call_ensures(SessionManager::remove_expired, (swept, later), removed),
    ensures
        later < now + 300_000 ==> final(swept)@.contains_key(*id),
        later >= now + 300_000 ==> !final(swept)@.contains_key(*id),
{
    law_ping_is_noted(m, id, address, sequence, now, fresh, Some(offer));
    law_sweep_ends_the_silent(swept, later, removed, *id);
}

/// The same of a session that was resumed.
pub proof fn law_resuming_keeps_alive(
    m: &mut SessionManager,
    id: &SessionId,
    token: &[u8; SERVER_NONCE_SIZE],
    address: PeerAddr,
    link: ClientLink,
    sequence: u64,
    mtu: u16,
    now: u64,
    message: StillGoodDude,
    swept: &mut SessionManager,
    later: u64,
    removed: usize,
)
    requires
        call_ensures(
            SessionManager::resume_session,
            (m, id, token, address, link, sequence, mtu, now),
            Some(message),
        ),
        old(swept)@ == final(m)@,
        call_ensures(SessionManager::remove_expired, (swept, later), removed),
    ensures
        later < now + 300_000 ==> final(swept)@.contains_key(*id),
        later >= now + 300_000 ==> !final(swept)@.contains_key(*id),
{
    law_sweep_ends_the_silent(swept, later, removed, *id);
}

/// Who asks for a token is offered one: the one that is on offer, or the
/// fresh one. It does not replace the current one yet.
pub proof fn law_offer(
    m: &mut SessionManager,
    id: &SessionId,
    address: PeerAddr,
    fresh: &[u8; SERVER_NONCE_SIZE],
    offer: Option<[u8; SERVER_NONCE_SIZE]>,
)
    requires
        call_ensures(SessionManager::rekey_offer, (m, id, address, fresh), offer),
    ensures
        ({
            let s = old(m)@[*id];
            let known = old(m)@.contains_key(*id) && s.client_address == address;
            let token = match s.pending_nonce {
                Some(held) => held,
                None => *fresh,
            };
            &&& known ==> offer == Some(token) && final(m)@ == old(m)@.insert(
                *id,
                Session { pending_nonce: Some(token), ..s },
            )
            &&& !known ==> offer is None && final(m)@ == old(m)@
            &&& known && s.pending_nonce is None ==> final(m).dirty()
        }),
{
}

/// The token on offer becomes the current one when it is confirmed, and the
/// one before it stays good; any other token confirms nothing.
pub proof fn law_confirmation(
    m: &mut SessionManager,
    id: &SessionId,
    nonce: &[u8; SERVER_NONCE_SIZE],
    address: PeerAddr,
    now: u64,
    current: Option<[u8; SERVER_NONCE_SIZE]>,
)
    requires
        call_ensures(SessionManager::rekey_confirm, (m, id, nonce, address, now), current),
    ensures
        ({
            let s = old(m)@[*id];
            let known = old(m)@.contains_key(*id) && s.client_address == address;
            &&& !known ==> current is None && final(m)@ == old(m)@
            &&& known && s.pending_nonce == Some(*nonce) ==> {
                &&& current == Some(*nonce)
                &&& final(m).dirty()
                &&& final(m)@ == old(m)@.insert(
                    *id,
                    Session {
                        server_nonce: *nonce,
                        prev_nonce: Some(s.server_nonce),
                        pending_nonce: None,
                        last_rekey: now,
                        ..s
                    },
                )
            }
            &&& known && s.pending_nonce != Some(*nonce) ==> current == Some(s.server_nonce) && final(m)@ =~= old(m)@
        }),
{
}

/// Ending a session takes it, and nothing else, off the table.
pub proof fn law_end(m: &mut SessionManager, id: &SessionId, session: Option<Session>, other: SessionId)
    requires
        call_ensures(SessionManager::remove, (m, id), session),
    ensures
        !final(m)@.contains_key(*id),
        other != *id ==> (final(m)@.contains_key(other) <==> old(m)@.contains_key(other)),
        other != *id && old(m)@.contains_key(other) ==> final(m)@[other] == old(m)@[other],
        old(m)@.contains_key(*id) ==> session == Some(old(m)@[*id]) && final(m).dirty(),
        !old(m)@.contains_key(*id) ==> session is None,
{
}

/// The end of a connection leaves its sessions on the table without a link,
/// to be resumed, and the sessions of other connections as they are.
pub proof fn law_lost_connection_keeps_sessions(
    m: &mut SessionManager,
    stable_id: usize,
    detached: usize,
    n: &mut SessionManager,
    stream_id: u64,
    dropped: usize,
    id: SessionId,
)
    requires
        call_ensures(SessionManager::detach_by_stable_id, (m, stable_id), detached),
        call_ensures(SessionManager::detach_by_stream_id, (n, stream_id), dropped),
    ensures
        final(m)@.contains_key(id) <==> old(m)@.contains_key(id),
        final(n)@.contains_key(id) <==> old(n)@.contains_key(id),
        old(m)@.contains_key(id) ==> {
            let s = old(m)@[id];
            &&& s.link == (ClientLink::Quic { stable_id }) ==> final(m)@[id] == (Session {
                link: ClientLink::Detached,
                ..s
            })
            &&& s.link != (ClientLink::Quic { stable_id }) ==> final(m)@[id] == s
        },
        old(n)@.contains_key(id) ==> {
            let s = old(n)@[id];
            &&& s.link == (ClientLink::Stream { id: stream_id }) ==> final(n)@[id] == (Session {
                link: ClientLink::Detached,
                ..s
            })
            &&& s.link != (ClientLink::Stream { id: stream_id }) ==> final(n)@[id] == s
        },
        detached == old(m)@.dom().filter(|x: SessionId| old(m)@[x].link == (ClientLink::Quic { stable_id })).len(),
        dropped == old(n)@.dom().filter(|x: SessionId| old(n)@[x].link == (ClientLink::Stream { id: stream_id })).len(),
{
    let by_id = old(m)@.dom().filter(|x: SessionId| old(m)@[x].link == (ClientLink::Quic { stable_id }));
    assert(by_id =~= old(m)@.dom().filter(
        |x: SessionId| (|s: Session| s.link == (ClientLink::Quic { stable_id }))(old(m)@[x]),
    ));
    let by_stream = old(n)@.dom().filter(|x: SessionId| old(n)@[x].link == (ClientLink::Stream { id: stream_id }));
    assert(by_stream =~= old(n)@.dom().filter(
        |x: SessionId| (|s: Session| s.link == (ClientLink::Stream { id: stream_id }))(old(n)@[x]),
    ));
}

/// An address leads to a session that has it and has a link, where there is
/// one.
pub proof fn law_address_leads_to_session(m: &SessionManager, ipv4: [u8; 4], found: Option<&Session>, id: SessionId)
    requires
        call_ensures(SessionManager::find_by_ipv4, (m, ipv4), found),
    ensures
        found matches Some(s) ==> m@.contains_key(s.id) && m@[s.id] == *s && s.ipv4 == ipv4 && s.link
            != ClientLink::Detached,
        m@.contains_key(id) && m@[id].ipv4 == ipv4 && m@[id].link != ClientLink::Detached ==> found is Some,
{
}

/// A session that was opened is on the table as the client was told, under an
/// address that no other session has; and no other client's session is
/// touched.
pub proof fn law_opened_session(
    m: &mut SessionManager,
    address: PeerAddr,
    link: ClientLink,
    capabilities: u32,
    client_nonce: [u8; 32],
    sequence: u64,
    mtu: u16,
    claims: &SubscriptionClaims,
    now: u64,
    fresh: &Fresh,
    message: AllGoodDude,
    kicked: Vec<KickedSession>,
)
    requires
        call_ensures(
            SessionManager::create_session,
            (m, address, link, capabilities, client_nonce, sequence, mtu, claims, now, fresh),
            Ok::<(AllGoodDude, Vec<KickedSession>), CreateSessionError>((message, kicked)),
        ),
    ensures
        message.protocol_version == 1,
        message.session_id == fresh.session_id,
        message.server_nonce == fresh.nonce,
        message.mtu == mtu,
        message.capabilities == capabilities,
        message.assigned_ipv4[0] == 10 && message.assigned_ipv4[1] == 77 && message.assigned_ipv4[2] == 0,
        2 <= message.assigned_ipv4[3] <= 254,
        final(m)@.contains_key(fresh.session_id),
        final(m).dirty(),
        final(m)@[fresh.session_id] == (Session {
            id: fresh.session_id,
            ipv4: message.assigned_ipv4,
            client_address: address,
            link,
            capabilities,
            last_sequence: sequence,
            created_at: now,
            last_activity: now,
            last_rekey: now,
            client_nonce,
            server_nonce: fresh.nonce,
            prev_nonce: None,
            pending_nonce: None,
            client_id: claims.client_id,
            token_id: claims.token_id,
            subscription_expires_at: claims.expires_at,
            plan: claims.plan,
            device_limit: claims.device_limit,
            max_mbps: claims.max_mbps,
            rate: RateLimit {
                max_mbps: claims.max_mbps,
                tokens: (if claims.max_mbps == 0 {
                    65_536
                } else {
                    claims.max_mbps * 125_000
                }) as u64,
                last_refill_ms: now,
            },
        }),
        forall|id: SessionId| #[trigger]
            final(m)@.contains_key(id) && id != fresh.session_id ==> old(m)@.contains_key(id) && final(m)@[id] == old(
                m,
            )@[id],
        !old(m)@.contains_key(fresh.session_id) ==> forall|id: SessionId| #[trigger]
            final(m)@.contains_key(id) && id != fresh.session_id ==> final(m)@[id].ipv4[3] != message.assigned_ipv4[3],
{
    let session = super::session::begun(
        address,
        link,
        capabilities,
        client_nonce,
        sequence,
        *claims,
        message.assigned_ipv4,
        now,
        *fresh,
    );
    old(m).lemma_finite();
    let rest = choose|rest: super::session::Sessions| #[trigger]
        super::session::limited(old(m)@, *claims, kicked@, rest) && super::session::opens(
            rest,
            session,
            mtu,
            message,
            final(m)@,
        );
    super::laws::lemma_limited(old(m)@, *claims, kicked@, rest);
    assert(session.ipv4@[0] == 10 && session.ipv4@[1] == 77 && session.ipv4@[2] == 0);
    assert forall|id: SessionId| #[trigger] final(m)@.contains_key(id) && id != fresh.session_id implies old(
        m,
    )@.contains_key(id) && final(m)@[id] == old(m)@[id] && (!old(m)@.contains_key(fresh.session_id)
        ==> final(m)@[id].ipv4[3] != message.assigned_ipv4[3]) by {
        assert(rest.contains_key(id));
    }
}

/// No session is opened only where each of the addresses from 10.77.0.2 to
/// 10.77.0.254 is taken.
pub proof fn law_no_address_left(
    m: &mut SessionManager,
    address: PeerAddr,
    link: ClientLink,
    capabilities: u32,
    client_nonce: [u8; 32],
    sequence: u64,
    mtu: u16,
    claims: &SubscriptionClaims,
    now: u64,
    fresh: &Fresh,
    error: CreateSessionError,
    host: u8,
)
    requires
        call_ensures(
            SessionManager::create_session,
            (m, address, link, capabilities, client_nonce, sequence, mtu, claims, now, fresh),
            Err::<(AllGoodDude, Vec<KickedSession>), CreateSessionError>(error),
        ),
        2 <= host <= 254,
    ensures
        exists|id: SessionId| #[trigger] final(m)@.contains_key(id) && final(m)@[id].ipv4[3] == host,
        exists|id: SessionId| #[trigger] old(m)@.contains_key(id) && old(m)@[id].ipv4[3] == host,
{
    old(m).lemma_finite();
    let kicked = choose|kicked: Seq<KickedSession>| #[trigger]
        super::session::limited(old(m)@, *claims, kicked, final(m)@);
    super::laws::lemma_limited(old(m)@, *claims, kicked, final(m)@);
    assert(super::session::host_used(final(m)@, host));
    let id = choose|id: SessionId| #[trigger] final(m)@.contains_key(id) && final(m)@[id].ipv4[3] == host;
    assert(old(m)@.contains_key(id));
}

} // verus!
