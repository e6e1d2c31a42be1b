//! What every sequence of session operations keeps.

use vstd::prelude::*;

use super::session::{
    begun, client_count, created, device_cap, host_used, in_window, kicks, limited, of_client, oldest, opens,
    ClientLink, Fresh, KickedSession, Session, SessionId, Sessions, SEQUENCE_REORDER_WINDOW, UNLIMITED_DEVICES,
};
use crate::auth::token::{SubscriptionClaims, CLIENT_ID_SIZE};
use crate::net::PeerAddr;
use crate::protocol::all_good_dude::{AllGoodDude, SERVER_NONCE_SIZE};

verus! {

/// No two sessions have the same host number.
pub open spec fn addresses_distinct(m: Sessions) -> bool {
    forall|a: SessionId, b: SessionId|
        #![trigger m.contains_key(a), m.contains_key(b)]
        m.contains_key(a) && m.contains_key(b) && a != b ==> m[a].ipv4[3] != m[b].ipv4[3]
}

/// Whether `rest` is `m` with nothing but sessions of `client` taken out.
pub open spec fn only_lost(m: Sessions, client: [u8; CLIENT_ID_SIZE], rest: Sessions) -> bool {
    &&& forall|id: SessionId| #[trigger] rest.contains_key(id) ==> m.contains_key(id) && rest[id] == m[id]
    &&& forall|id: SessionId| #[trigger]
        m.contains_key(id) && m[id].client_id != client ==> rest.contains_key(id) && rest[id] == m[id]
}

proof fn lemma_kicks(
    m: Sessions,
    client: [u8; CLIENT_ID_SIZE],
    limit: nat,
    kicked: Seq<KickedSession>,
    rest: Sessions,
)
    requires
        kicks(m, client, limit, kicked, rest),
        m.dom().finite(),
    ensures
        client_count(rest, client) < limit,
        rest.dom().finite(),
        only_lost(m, client, rest),
    decreases kicked.len(),
{
    if client_count(m, client) >= limit {
        let next = m.remove(kicked[0].id);
        lemma_kicks(next, client, limit, kicked.skip(1), rest);
        assert forall|id: SessionId| #[trigger] rest.contains_key(id) implies m.contains_key(id) && rest[id] == m[id] by {
            assert(next.contains_key(id));
        }
        assert forall|id: SessionId| #[trigger]
            m.contains_key(id) && m[id].client_id != client implies rest.contains_key(id) && rest[id] == m[id] by {
            assert(id != kicked[0].id);
            assert(next.contains_key(id));
        }
    }
}

pub(super) proof fn lemma_limited(m: Sessions, claims: SubscriptionClaims, kicked: Seq<KickedSession>, rest: Sessions)
    requires
        limited(m, claims, kicked, rest),
        m.dom().finite(),
    ensures
        rest.dom().finite(),
        only_lost(m, claims.client_id, rest),
        claims.device_limit != UNLIMITED_DEVICES ==> client_count(rest, claims.client_id) < device_cap(
            claims.device_limit,
        ),
{
    if claims.device_limit != UNLIMITED_DEVICES {
        lemma_kicks(m, claims.client_id, device_cap(claims.device_limit), kicked, rest);
    }
}

/// With a device limit, a client never has more sessions than that after a
/// session is opened.
pub proof fn law_device_limit(
    before: Sessions,
    claims: SubscriptionClaims,
    kicked: Seq<KickedSession>,
    session: Session,
    mtu: u16,
    message: AllGoodDude,
    after: Sessions,
)
    requires
        before.dom().finite(),
        created(before, claims, kicked, session, mtu, message, after),
        claims.device_limit != UNLIMITED_DEVICES,
    ensures
        client_count(after, claims.client_id) <= device_cap(claims.device_limit),
{
    let rest = choose|rest: Sessions| #[trigger]
        limited(before, claims, kicked, rest) && opens(rest, session, mtu, message, after);
    lemma_limited(before, claims, kicked, rest);
    let client = claims.client_id;
    let p = |s: Session| s.client_id == client;
    let old_set = rest.dom().filter(|id: SessionId| p(rest[id]));
    let new_set = after.dom().filter(|id: SessionId| p(after[id]));
    assert(old_set.finite());
    assert(new_set.subset_of(old_set.insert(session.id)));
    vstd::set_lib::lemma_len_subset(new_set, old_set.insert(session.id));
}

/// Opening a session takes nothing from other clients.
pub proof fn law_other_clients_stay(
    before: Sessions,
    claims: SubscriptionClaims,
    kicked: Seq<KickedSession>,
    session: Session,
    mtu: u16,
    message: AllGoodDude,
    after: Sessions,
    id: SessionId,
)
    requires
        before.dom().finite(),
        created(before, claims, kicked, session, mtu, message, after),
        before.contains_key(id),
        before[id].client_id != claims.client_id,
        id != session.id,
    ensures
        after.contains_key(id) && after[id] == before[id],
{
    let rest = choose|rest: Sessions| #[trigger]
        limited(before, claims, kicked, rest) && opens(rest, session, mtu, message, after);
    lemma_limited(before, claims, kicked, rest);
}

/// Without a device limit no session makes room.
pub proof fn law_unlimited_kicks_nobody(
    before: Sessions,
    claims: SubscriptionClaims,
    kicked: Seq<KickedSession>,
    session: Session,
    mtu: u16,
    message: AllGoodDude,
    after: Sessions,
)
    requires
        created(before, claims, kicked, session, mtu, message, after),
        claims.device_limit == UNLIMITED_DEVICES,
    ensures
        kicked.len() == 0,
        after == before.insert(session.id, session),
{
}

/// A session that makes room while another of the client's sessions has no
/// link has none itself.
pub proof fn law_detached_go_first(m: Sessions, client: [u8; CLIENT_ID_SIZE], id: SessionId, other: SessionId)
    requires
        oldest(m, client, id),
        of_client(m, client, other),
        m[other].link is Detached,
    ensures
        m[id].link is Detached,
        m[id].last_activity <= m[other].last_activity,
{
}

/// Opening a session keeps all addresses apart.
pub proof fn law_addresses_stay_distinct(
    before: Sessions,
    claims: SubscriptionClaims,
    kicked: Seq<KickedSession>,
    session: Session,
    mtu: u16,
    message: AllGoodDude,
    after: Sessions,
)
    requires
        before.dom().finite(),
        created(before, claims, kicked, session, mtu, message, after),
        addresses_distinct(before),
    ensures
        addresses_distinct(after),
{
    let rest = choose|rest: Sessions| #[trigger]
        limited(before, claims, kicked, rest) && opens(rest, session, mtu, message, after);
    lemma_limited(before, claims, kicked, rest);
    assert forall|a: SessionId, b: SessionId|
        #![trigger after.contains_key(a), after.contains_key(b)]
        after.contains_key(a) && after.contains_key(b) && a != b implies after[a].ipv4[3] != after[b].ipv4[3] by {
        if a != session.id {
            assert(rest.contains_key(a));
            assert(before.contains_key(a));
        }
        if b != session.id {
            assert(rest.contains_key(b));
            assert(before.contains_key(b));
        }
    }
}

/// Every address that is handed out lies in 10.77.0.2 to 10.77.0.254.
pub proof fn law_address_range(
    before: Sessions,
    claims: SubscriptionClaims,
    kicked: Seq<KickedSession>,
    session: Session,
    mtu: u16,
    message: AllGoodDude,
    after: Sessions,
)
    requires
        created(before, claims, kicked, session, mtu, message, after),
    ensures
        message.assigned_ipv4@ == seq![10u8, 77u8, 0u8, message.assigned_ipv4[3]],
        2 <= message.assigned_ipv4[3] <= 254,
        message.assigned_ipv4 == after[message.session_id].ipv4,
{
}

/// The address of a session that ended can be handed out again at once.
pub proof fn law_ended_session_frees_address(m: Sessions, id: SessionId)
    requires
        addresses_distinct(m),
        m.contains_key(id),
    ensures
        !host_used(m.remove(id), m[id].ipv4[3]),
        addresses_distinct(m.remove(id)),
{
    let rest = m.remove(id);
    assert forall|x: SessionId| #[trigger] rest.contains_key(x) implies rest[x].ipv4[3] != m[id].ipv4[3] by {
        assert(m.contains_key(x));
    }
    assert forall|a: SessionId, b: SessionId|
        #![trigger rest.contains_key(a), rest.contains_key(b)]
        rest.contains_key(a) && rest.contains_key(b) && a != b implies rest[a].ipv4[3] != rest[b].ipv4[3] by {
        assert(m.contains_key(a) && m.contains_key(b));
    }
}

/// Resuming keeps the session, its address, its client and its limits, and
/// the token that was shown stays good.
pub proof fn law_resume_keeps_session(
    s: Session,
    token: [u8; SERVER_NONCE_SIZE],
    address: PeerAddr,
    link: ClientLink,
    sequence: u64,
    now: u64,
)
    requires
        s.has_token(token),
    ensures
        ({
            let r = s.resumed(token, address, link, sequence, now);
            &&& r.id == s.id
            &&& r.ipv4 == s.ipv4
            &&& r.client_id == s.client_id
            &&& r.token_id == s.token_id
            &&& r.device_limit == s.device_limit
            &&& r.max_mbps == s.max_mbps
            &&& r.client_address == address
            &&& r.link == link
            &&& r.has_token(token)
        }),
{
}

/// A new token on offer is good for resuming, and so are all tokens that were
/// good before; confirming it keeps both it and the one that it replaces.
pub proof fn law_rekey_keeps_tokens(
    s: Session,
    fresh: [u8; SERVER_NONCE_SIZE],
    token: [u8; SERVER_NONCE_SIZE],
    now: u64,
)
    ensures
        s.pending_nonce is None ==> s.offering(fresh).has_token(fresh),
        s.has_token(token) ==> s.offering(fresh).has_token(token),
        s.has_token(fresh) ==> s.confirmed(fresh, now).has_token(fresh),
        s.confirmed(fresh, now).has_token(s.server_nonce),
{
}

/// Once a client comes back with the current token, older ones and ones on
/// offer are worth nothing.
pub proof fn law_resume_with_current_drops_others(
    s: Session,
    other: [u8; SERVER_NONCE_SIZE],
    address: PeerAddr,
    link: ClientLink,
    sequence: u64,
    now: u64,
)
    requires
        s.pending_nonce != Some(s.server_nonce),
        other != s.server_nonce,
    ensures
        !s.resumed(s.server_nonce, address, link, sequence, now).has_token(other),
{
}

/// A frame is refused exactly when it is at least the window behind the
/// highest sequence number seen.
pub proof fn law_sequence_window(seen: u64, incoming: u64)
    ensures
        in_window(seen, incoming) <==> !(seen >= incoming && seen - incoming >= SEQUENCE_REORDER_WINDOW),
        in_window(seen, seen),
{
}

/// A session that comes back starts to count again at the number that it
/// comes back with, whatever was seen before: every frame from there on is
/// taken.
pub proof fn law_window_restarts(
    s: Session,
    token: [u8; SERVER_NONCE_SIZE],
    address: PeerAddr,
    link: ClientLink,
    sequence: u64,
    now: u64,
    later: u64,
)
    ensures
        ({
            let r = s.resumed(token, address, link, sequence, now);
            &&& r.last_sequence == sequence
            &&& later >= sequence ==> in_window(r.last_sequence, later)
            &&& in_window(r.last_sequence, later) <==> later + 1024 > sequence
        }),
{
}

/// A frame is taken unless it is 1024 or more behind the highest number seen.
/// Frames may come in any order: what is remembered of two is the higher
/// number, and a frame that was taken is taken before it too.
pub proof fn law_order_does_not_matter(s: Session, a: u64, b: u64)
    ensures
        in_window(s.last_sequence, a) <==> s.last_sequence < a + 1024,
        s.having_seen(a).having_seen(b) == s.having_seen(b).having_seen(a),
        s.having_seen(a).having_seen(a) == s.having_seen(a),
        s.having_seen(a).last_sequence >= a,
        s.having_seen(a).last_sequence >= s.last_sequence,
        s.having_seen(a).last_sequence == a || s.having_seen(a).last_sequence == s.last_sequence,
        s.having_seen(a) == (Session { last_sequence: s.having_seen(a).last_sequence, ..s }),
{
}

/// A session lives for five minutes after its last sign of life: after it was
/// opened, after it was resumed, and after each PING.
pub proof fn law_sign_of_life_lasts(
    s: Session,
    token: [u8; SERVER_NONCE_SIZE],
    address: PeerAddr,
    link: ClientLink,
    capabilities: u32,
    client_nonce: [u8; 32],
    claims: SubscriptionClaims,
    ipv4: [u8; 4],
    fresh: Fresh,
    sequence: u64,
    now: u64,
    later: u64,
)
    ensures
        s.touched(sequence, now, fresh.nonce).expired(later) <==> later >= now + 300_000,
        s.resumed(token, address, link, sequence, now).expired(later) <==> later >= now + 300_000,
        begun(address, link, capabilities, client_nonce, sequence, claims, ipv4, now, fresh).expired(later) <==> later
            >= now + 300_000,
        s.having_seen(sequence).expired(later) == s.expired(later),
        s.offering(fresh.nonce).expired(later) == s.expired(later),
        s.confirmed(token, now).expired(later) == s.expired(later),
{
}

/// A PING changes nothing of a session but the number and the time that were
/// seen last, and the token on offer.
pub proof fn law_ping_keeps_session(s: Session, sequence: u64, now: u64, fresh: [u8; SERVER_NONCE_SIZE])
    ensures
        ({
            let t = s.touched(sequence, now, fresh);
            &&& t == (Session {
                last_sequence: t.last_sequence,
                last_activity: now,
                pending_nonce: t.pending_nonce,
                ..s
            })
            &&& t.last_sequence == if s.last_sequence < sequence {
                sequence
            } else {
                s.last_sequence
            }
        }),
{
}

/// A token is on offer from an hour after the last one was confirmed, or
/// after the session was opened, and not before; one that is on offer already
/// stays.
pub proof fn law_token_is_replaced_hourly(
    s: Session,
    nonce: [u8; SERVER_NONCE_SIZE],
    confirmed_at: u64,
    sequence: u64,
    now: u64,
    fresh: [u8; SERVER_NONCE_SIZE],
)
    ensures
        s.pending_nonce matches Some(held) ==> {
            &&& s.touched(sequence, now, fresh).pending_nonce == Some(held)
            &&& s.offering(fresh).pending_nonce == Some(held)
        },
        s.pending_nonce is None ==> {
            &&& s.offering(fresh).pending_nonce == Some(fresh)
            &&& now >= s.last_rekey + 3_600_000 ==> s.touched(sequence, now, fresh).pending_nonce == Some(fresh)
            &&& now < s.last_rekey + 3_600_000 ==> s.touched(sequence, now, fresh).pending_nonce is None
        },
        s.pending_nonce == Some(nonce) ==> {
            let c = s.confirmed(nonce, confirmed_at);
            &&& c.server_nonce == nonce
            &&& c.prev_nonce == Some(s.server_nonce)
            &&& c.pending_nonce is None
            &&& c.touched(sequence, now, fresh).pending_nonce is Some <==> now >= confirmed_at + 3_600_000
        },
        s.pending_nonce != Some(nonce) ==> s.confirmed(nonce, confirmed_at) == s,
        s.offering(fresh) == (Session { pending_nonce: s.offering(fresh).pending_nonce, ..s }),
        s.confirmed(nonce, confirmed_at) == (Session {
            server_nonce: s.confirmed(nonce, confirmed_at).server_nonce,
            prev_nonce: s.confirmed(nonce, confirmed_at).prev_nonce,
            pending_nonce: s.confirmed(nonce, confirmed_at).pending_nonce,
            last_rekey: s.confirmed(nonce, confirmed_at).last_rekey,
            ..s
        }),
{
}

/// Coming back changes nothing of a session but where it is, what was seen
/// last and the tokens. A token on offer that a client comes back with is
/// taken as confirmed, and the one before it stays good; the current one ends
/// all others; the one before the current one changes none.
pub proof fn law_resume_and_tokens(
    s: Session,
    token: [u8; SERVER_NONCE_SIZE],
    address: PeerAddr,
    link: ClientLink,
    sequence: u64,
    now: u64,
)
    requires
        s.has_token(token),
    ensures
        ({
            let r = s.resumed(token, address, link, sequence, now);
            &&& r == (Session {
                client_address: address,
                link,
                last_sequence: sequence,
                last_activity: now,
                server_nonce: r.server_nonce,
                prev_nonce: r.prev_nonce,
                pending_nonce: r.pending_nonce,
                ..s
            })
            &&& s.pending_nonce == Some(token) ==> r.server_nonce == token && r.prev_nonce == Some(s.server_nonce)
                && r.pending_nonce is None
            &&& s.pending_nonce != Some(token) ==> r.server_nonce == s.server_nonce
            &&& s.pending_nonce != Some(token) && s.server_nonce == token ==> r.prev_nonce is None
                && r.pending_nonce is None
            &&& s.pending_nonce != Some(token) && s.server_nonce != token ==> r.prev_nonce == s.prev_nonce
                && r.pending_nonce == s.pending_nonce
        }),
        forall|other: [u8; SERVER_NONCE_SIZE]| #[trigger]
            s.has_token(other) <==> other == s.server_nonce || s.prev_nonce == Some(other) || s.pending_nonce == Some(
                other,
            ),
{
}

/// A new session is the client's, of its subscription, with a full bucket, at
/// the place that it greeted from; what the client is told of it is so, and
/// the token that it is given resumes it.
pub proof fn law_new_session_is_as_told(
    before: Sessions,
    claims: SubscriptionClaims,
    kicked: Seq<KickedSession>,
    address: PeerAddr,
    link: ClientLink,
    capabilities: u32,
    client_nonce: [u8; 32],
    sequence: u64,
    now: u64,
    fresh: Fresh,
    mtu: u16,
    message: AllGoodDude,
    after: Sessions,
)
    requires
        created(
            before,
            claims,
            kicked,
            begun(address, link, capabilities, client_nonce, sequence, claims, message.assigned_ipv4, now, fresh),
            mtu,
            message,
            after,
        ),
    ensures
        message.session_id == fresh.session_id,
        message.server_nonce == fresh.nonce,
        message.mtu == mtu,
        message.capabilities == capabilities,
        after.contains_key(message.session_id),
        ({
            let s = after[message.session_id];
            &&& s.id == message.session_id
            &&& s.ipv4 == message.assigned_ipv4
            &&& s.capabilities == message.capabilities
            &&& s.has_token(message.server_nonce)
            &&& s.prev_nonce is None && s.pending_nonce is None
            &&& s.client_address == address
            &&& s.link == link
            &&& s.last_sequence == sequence
            &&& s.created_at == now
            &&& s.client_nonce == client_nonce
            &&& s.client_id == claims.client_id
            &&& s.token_id == claims.token_id
            &&& s.subscription_expires_at == claims.expires_at
            &&& s.plan == claims.plan
            &&& s.device_limit == claims.device_limit
            &&& s.max_mbps == claims.max_mbps
            &&& s.rate.max_mbps == claims.max_mbps
            &&& s.rate.last_refill_ms == now
            &&& claims.max_mbps > 0 ==> s.rate.tokens == claims.max_mbps * 125_000
            &&& s.last_rekey == now
        }),
{
}

pub(super) proof fn lemma_who_is_kicked(
    m: Sessions,
    client: [u8; CLIENT_ID_SIZE],
    limit: nat,
    kicked: Seq<KickedSession>,
    rest: Sessions,
)
    requires
        kicks(m, client, limit, kicked, rest),
        m.dom().finite(),
        limit > 0,
    ensures
        forall|i: int|
            0 <= i < kicked.len() ==> of_client(m, client, (#[trigger] kicked[i]).id) && kicked[i].link
                == m[kicked[i].id].link && !rest.contains_key(kicked[i].id),
        forall|i: int, other: SessionId|
            #![trigger kicked[i], of_client(rest, client, other)]
            0 <= i < kicked.len() && of_client(rest, client, other) ==> {
                &&& m[other].link is Detached ==> kicked[i].link is Detached
                &&& (m[other].link is Detached) == (kicked[i].link is Detached) ==> m[kicked[i].id].last_activity
                    <= m[other].last_activity
            },
        client_count(m, client) < limit ==> kicked.len() == 0,
        client_count(m, client) >= limit ==> client_count(rest, client) + 1 == limit,
        client_count(rest, client) + kicked.len() == client_count(m, client),
    decreases kicked.len(),
{
    if client_count(m, client) >= limit {
        let first = kicked[0].id;
        let next = m.remove(first);
        let tail = kicked.skip(1);
        lemma_kicks(m, client, limit, kicked, rest);
        lemma_who_is_kicked(next, client, limit, tail, rest);
        lemma_kicks(next, client, limit, tail, rest);
        let p = |s: Session| s.client_id == client;
        let all = m.dom().filter(|id: SessionId| p(m[id]));
        let fewer = next.dom().filter(|id: SessionId| p(next[id]));
        assert(all.finite());
        assert(fewer =~= all.remove(first));
        assert(all.contains(first));
        assert(client_count(next, client) + 1 == client_count(m, client));
        assert forall|i: int| 0 <= i < kicked.len() implies of_client(m, client, (#[trigger] kicked[i]).id)
            && kicked[i].link == m[kicked[i].id].link && !rest.contains_key(kicked[i].id) by {
            if i > 0 {
                assert(tail[i - 1] == kicked[i]);
            } else {
                assert(!next.contains_key(first));
            }
        }
        assert forall|i: int, other: SessionId|
            #![trigger kicked[i], of_client(rest, client, other)]
            0 <= i < kicked.len() && of_client(rest, client, other) implies {
            &&& m[other].link is Detached ==> kicked[i].link is Detached
            &&& (m[other].link is Detached) == (kicked[i].link is Detached) ==> m[kicked[i].id].last_activity
                <= m[other].last_activity
        } by {
            assert(next.contains_key(other));
            assert(of_client(m, client, other));
            if i > 0 {
                assert(tail[i - 1] == kicked[i]);
                assert(next[other] == m[other]);
            }
        }
    }
}

/// The device limit ends just as many of a client's sessions as it has to,
/// and of those the ones without a link before the ones with one, the longest
/// silent first. A limit of nothing counts as one, 255 as none.
pub proof fn law_who_makes_room(
    before: Sessions,
    claims: SubscriptionClaims,
    kicked: Seq<KickedSession>,
    session: Session,
    mtu: u16,
    message: AllGoodDude,
    after: Sessions,
)
    requires
        before.dom().finite(),
        created(before, claims, kicked, session, mtu, message, after),
        session.client_id == claims.client_id,
        !before.contains_key(session.id),
    ensures
        ({
            let had = client_count(before, claims.client_id);
            let cap = if claims.device_limit == 0 {
                1int
            } else {
                claims.device_limit as int
            };
            &&& claims.device_limit == 255 || had < cap ==> kicked.len() == 0 && after == before.insert(
                session.id,
                session,
            )
            &&& claims.device_limit != 255 && had >= cap ==> kicked.len() == had - cap + 1 && client_count(
                after,
                claims.client_id,
            ) == cap
        }),
        forall|i: int|
            0 <= i < kicked.len() ==> {
                &&& before.contains_key((#[trigger] kicked[i]).id)
                &&& before[kicked[i].id].client_id == claims.client_id
                &&& kicked[i].link == before[kicked[i].id].link
                &&& !after.contains_key(kicked[i].id)
            },
        forall|i: int, other: SessionId|
            #![trigger kicked[i], after.contains_key(other)]
            0 <= i < kicked.len() && after.contains_key(other) && after[other].client_id == claims.client_id && other
                != session.id ==> {
                &&& after[other].link is Detached ==> kicked[i].link is Detached
                &&& (after[other].link is Detached) == (kicked[i].link is Detached)
                    ==> before[kicked[i].id].last_activity <= after[other].last_activity
            },
{
    let client = claims.client_id;
    let rest = choose|rest: Sessions| #[trigger]
        limited(before, claims, kicked, rest) && opens(rest, session, mtu, message, after);
    lemma_limited(before, claims, kicked, rest);
    if claims.device_limit != UNLIMITED_DEVICES {
        lemma_who_is_kicked(before, client, device_cap(claims.device_limit), kicked, rest);
        let p = |s: Session| s.client_id == client;
        let had = rest.dom().filter(|id: SessionId| p(rest[id]));
        let has = after.dom().filter(|id: SessionId| p(after[id]));
        assert(had.finite());
        assert(!rest.contains_key(session.id));
        assert(has =~= had.insert(session.id));
        assert forall|i: int, other: SessionId|
            #![trigger kicked[i], after.contains_key(other)]
            0 <= i < kicked.len() && after.contains_key(other) && after[other].client_id == claims.client_id && other
                != session.id implies {
            &&& after[other].link is Detached ==> kicked[i].link is Detached
            &&& (after[other].link is Detached) == (kicked[i].link is Detached)
                ==> before[kicked[i].id].last_activity <= after[other].last_activity
        } by {
            assert(of_client(rest, client, other));
            assert(rest[other] == before[other]);
        }
    }
}

/// A new session gets the lowest host number from 2 to 254 that no session
/// has which stays.
pub proof fn law_lowest_address(
    before: Sessions,
    claims: SubscriptionClaims,
    kicked: Seq<KickedSession>,
    session: Session,
    mtu: u16,
    message: AllGoodDude,
    after: Sessions,
    host: u8,
)
    requires
        before.dom().finite(),
        created(before, claims, kicked, session, mtu, message, after),
        !before.contains_key(session.id),
        2 <= host <= 254,
        forall|id: SessionId| #[trigger] before.contains_key(id) ==> before[id].ipv4[3] != host,
    ensures
        message.assigned_ipv4[3] <= host,
        2 <= message.assigned_ipv4[3],
        forall|id: SessionId| #[trigger]
            after.contains_key(id) && id != session.id ==> after[id].ipv4[3] != message.assigned_ipv4[3],
        message.assigned_ipv4[0] == 10 && message.assigned_ipv4[1] == 77 && message.assigned_ipv4[2] == 0,
{
    let rest = choose|rest: Sessions| #[trigger]
        limited(before, claims, kicked, rest) && opens(rest, session, mtu, message, after);
    lemma_limited(before, claims, kicked, rest);
    let given = session.ipv4[3];
    assert(session.ipv4@[0] == 10 && session.ipv4@[1] == 77 && session.ipv4@[2] == 0);
    if host < given {
        assert(host_used(rest, host));
    }
    assert forall|id: SessionId| #[trigger] after.contains_key(id) && id != session.id implies after[id].ipv4[3]
        != given by {
        assert(rest.contains_key(id));
    }
}

} // verus!
