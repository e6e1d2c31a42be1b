//! Who is connected: sessions, their addresses, their resume tokens and the
//! device limit.

use vstd::prelude::*;

use super::rate::RateLimit;
use crate::auth::token::{SubscriptionClaims, SubscriptionPlan, CLIENT_ID_SIZE, TOKEN_ID_SIZE};
use crate::net::PeerAddr;
use crate::protocol::all_good_dude::{AllGoodDude, SERVER_NONCE_SIZE, SESSION_ID_SIZE};
use crate::protocol::frame::PROTOCOL_VERSION;
use crate::protocol::still_good_dude::StillGoodDude;
use crate::random::random_array;
use crate::wire::same_bytes;

verus! {

pub type SessionId = [u8; SESSION_ID_SIZE];

/// A session that was silent for this long is gone.
pub const SESSION_TIMEOUT_MS: u64 = 300_000;

/// A resume token older than this is replaced.
pub const REKEY_AFTER_MS: u64 = 3_600_000;

/// Frames this far behind the highest sequence seen are dropped. Datagrams
/// come in any order, so a smaller distance is no fault.
pub const SEQUENCE_REORDER_WINDOW: u64 = 1024;

/// A device limit of this many is none.
pub const UNLIMITED_DEVICES: u8 = 255;

/// Whether a frame is near enough to the highest sequence number seen.
pub open spec fn in_window(seen: u64, incoming: u64) -> bool {
    incoming + SEQUENCE_REORDER_WINDOW > seen
}

pub fn accept_sequence(last: &mut u64, incoming: u64) -> (yes: bool)
    ensures
        yes == in_window(*old(last), incoming),
        *final(last) == (if incoming > *old(last) {
            incoming
        } else {
            *old(last)
        }),
{
    let seen: u64 = *last;
    if incoming > seen {
        *last = incoming;
    }
    incoming >= seen || seen - incoming < SEQUENCE_REORDER_WINDOW
}

/// How a client is reached: a QUIC connection or a TLS stream by its number,
/// or not at all.
#[derive(Debug, Clone, Copy, PartialEq, Eq, Structural)]
pub enum ClientLink {
    Quic { stable_id: usize },
    Stream { id: u64 },
    Detached,
}

impl ClientLink {
    pub fn is_live(&self) -> (live: bool)
        ensures
            live == !(*self is Detached),
    {
        !matches!(self, ClientLink::Detached)
    }
}

/// Random values for a session that is about to be.
#[derive(Debug, Clone, Copy, PartialEq, Eq)]
pub struct Fresh {
    pub session_id: SessionId,
    pub nonce: [u8; SERVER_NONCE_SIZE],
}

impl Fresh {
    pub fn random() -> (fresh: Fresh) {
        Fresh { session_id: random_array(), nonce: random_array() }
    }
}

#[derive(Debug, Clone, Copy, PartialEq, Eq)]
pub struct Session {
    pub id: SessionId,
    pub ipv4: [u8; 4],
    pub client_address: PeerAddr,
    pub link: ClientLink,
    pub capabilities: u32,
    pub last_sequence: u64,
    pub created_at: u64,
    pub last_activity: u64,
    pub last_rekey: u64,
    pub client_nonce: [u8; 32],
    pub server_nonce: [u8; SERVER_NONCE_SIZE],
    pub prev_nonce: Option<[u8; SERVER_NONCE_SIZE]>,
    pub pending_nonce: Option<[u8; SERVER_NONCE_SIZE]>,
    pub client_id: [u8; CLIENT_ID_SIZE],
    pub token_id: [u8; TOKEN_ID_SIZE],
    pub subscription_expires_at: u64,
    pub plan: SubscriptionPlan,
    pub device_limit: u8,
    pub max_mbps: u32,
    pub rate: RateLimit,
}

/// A session that had to make room.
#[derive(Debug, Clone, Copy, PartialEq, Eq)]
pub struct KickedSession {
    pub id: SessionId,
    pub link: ClientLink,
}

#[derive(Debug, Clone, Copy, PartialEq, Eq, Structural)]
pub enum CreateSessionError {
    NoAddresses,
}

pub type Sessions = Map<SessionId, Session>;

// ---------------------------------------------------------------------------
// What the operations do to a session and to the table of sessions
// ---------------------------------------------------------------------------

impl Session {
    pub open spec fn has_token(self, token: [u8; SERVER_NONCE_SIZE]) -> bool {
        ||| self.server_nonce == token
        ||| self.prev_nonce == Some(token)
        ||| self.pending_nonce == Some(token)
    }

    /// The session after a client came back with `token`. A pending token
    /// becomes the current one; the current one drops the others.
    pub open spec fn resumed(
        self,
        token: [u8; SERVER_NONCE_SIZE],
        address: PeerAddr,
        link: ClientLink,
        sequence: u64,
        now: u64,
    ) -> Session {
        let (server_nonce, prev_nonce, pending_nonce) = if self.pending_nonce == Some(token) {
            (token, Some(self.server_nonce), None)
        } else if self.server_nonce == token {
            (self.server_nonce, None, None)
        } else {
            (self.server_nonce, self.prev_nonce, self.pending_nonce)
        };
        Session {
            client_address: address,
            link,
            last_sequence: sequence,
            last_activity: now,
            server_nonce,
            prev_nonce,
            pending_nonce,
            ..self
        }
    }

    /// The session with a token on offer.
    pub open spec fn offering(self, fresh: [u8; SERVER_NONCE_SIZE]) -> Session {
        if self.pending_nonce is None {
            Session { pending_nonce: Some(fresh), ..self }
        } else {
            self
        }
    }

    /// The session after the client confirmed `nonce`.
    pub open spec fn confirmed(self, nonce: [u8; SERVER_NONCE_SIZE], now: u64) -> Session {
        if self.pending_nonce == Some(nonce) {
            Session {
                prev_nonce: Some(self.server_nonce),
                server_nonce: nonce,
                pending_nonce: None,
                last_rekey: now,
                ..self
            }
        } else {
            self
        }
    }

    pub open spec fn rekey_due(self, now: u64) -> bool {
        now - self.last_rekey >= REKEY_AFTER_MS
    }

    /// The session after a frame with a sequence number.
    pub open spec fn having_seen(self, sequence: u64) -> Session {
        Session {
            last_sequence: if sequence > self.last_sequence {
                sequence
            } else {
                self.last_sequence
            },
            ..self
        }
    }

    /// The session after a sign of life.
    pub open spec fn touched(self, sequence: u64, now: u64, fresh: [u8; SERVER_NONCE_SIZE]) -> Session {
        let alive = Session { last_activity: now, ..self.having_seen(sequence) };
        if self.rekey_due(now) {
            alive.offering(fresh)
        } else {
            alive
        }
    }

    pub open spec fn expired(self, now: u64) -> bool {
        now - self.last_activity >= SESSION_TIMEOUT_MS
    }
}

/// How many sessions of a table have a property.
pub open spec fn count_where(m: Sessions, p: spec_fn(Session) -> bool) -> nat {
    m.dom().filter(|id: SessionId| p(m[id])).len()
}

/// How many sessions a client has.
pub open spec fn client_count(m: Sessions, client: [u8; CLIENT_ID_SIZE]) -> nat {
    count_where(m, |s: Session| s.client_id == client)
}

pub open spec fn of_client(m: Sessions, client: [u8; CLIENT_ID_SIZE], id: SessionId) -> bool {
    m.contains_key(id) && m[id].client_id == client
}

/// Whether `id` is the session of a client that goes first: the longest idle
/// one without a link, or the longest idle one if all have a link.
pub open spec fn oldest(m: Sessions, client: [u8; CLIENT_ID_SIZE], id: SessionId) -> bool {
    &&& of_client(m, client, id)
    &&& m[id].link is Detached ==> forall|other: SessionId|
        #[trigger] of_client(m, client, other) && m[other].link is Detached ==> m[id].last_activity
            <= m[other].last_activity
    &&& !(m[id].link is Detached) ==> forall|other: SessionId|
        #[trigger] of_client(m, client, other) ==> !(m[other].link is Detached) && m[id].last_activity
            <= m[other].last_activity
}

/// Whether taking `kicked` out one after the other, always one that goes
/// first, brings a client's sessions in `m` below `limit` and leaves `rest`.
pub open spec fn kicks(
    m: Sessions,
    client: [u8; CLIENT_ID_SIZE],
    limit: nat,
    kicked: Seq<KickedSession>,
    rest: Sessions,
) -> bool
    decreases kicked.len(),
{
    if client_count(m, client) < limit {
        kicked.len() == 0 && rest == m
    } else {
        &&& kicked.len() > 0
        &&& oldest(m, client, kicked[0].id)
        &&& kicked[0].link == m[kicked[0].id].link
        &&& kicks(m.remove(kicked[0].id), client, limit, kicked.skip(1), rest)
    }
}

/// How many sessions a subscription allows; at least one.
pub open spec fn device_cap(limit: u8) -> nat {
    if limit == 0 {
        1
    } else {
        limit as nat
    }
}

/// What the device limit of a subscription does to a table.
pub open spec fn limited(m: Sessions, claims: SubscriptionClaims, kicked: Seq<KickedSession>, rest: Sessions) -> bool {
    if claims.device_limit == UNLIMITED_DEVICES {
        kicked.len() == 0 && rest == m
    } else {
        kicks(m, claims.client_id, device_cap(claims.device_limit), kicked, rest)
    }
}

/// Whether some session has a host number.
pub open spec fn host_used(m: Sessions, host: u8) -> bool {
    exists|id: SessionId| #[trigger] m.contains_key(id) && m[id].ipv4[3] == host
}

/// Whether `host` is the lowest free host number, from 2 to 254.
pub open spec fn lowest_free(m: Sessions, host: u8) -> bool {
    &&& 2 <= host <= 254
    &&& !host_used(m, host)
    &&& forall|lower: u8| 2 <= lower < host ==> #[trigger] host_used(m, lower)
}

/// A session as it begins.
pub open spec fn begun(
    address: PeerAddr,
    link: ClientLink,
    capabilities: u32,
    client_nonce: [u8; 32],
    last_sequence: u64,
    claims: SubscriptionClaims,
    ipv4: [u8; 4],
    now: u64,
    fresh: Fresh,
) -> Session {
    Session {
        id: fresh.session_id,
        ipv4,
        client_address: address,
        link,
        capabilities,
        last_sequence,
        created_at: now,
        last_activity: now,
        last_rekey: now,
        client_nonce,
        server_nonce: fresh.nonce,
        prev_nonce: None,
        pending_nonce: None,
        client_id: claims.client_id,
        token_id: claims.token_id,
        subscription_expires_at: claims.expires_at,
        plan: claims.plan,
        device_limit: claims.device_limit,
        max_mbps: claims.max_mbps,
        rate: RateLimit::fresh(claims.max_mbps, now),
    }
}

/// Whether `session` joins the table `rest` under the lowest free address,
/// `message` says so to the client, and `after` is the table with it.
pub open spec fn opens(rest: Sessions, session: Session, mtu: u16, message: AllGoodDude, after: Sessions) -> bool {
    &&& session.ipv4@ == seq![10u8, 77u8, 0u8, session.ipv4[3]]
    &&& lowest_free(rest, session.ipv4[3])
    &&& message == (AllGoodDude {
        protocol_version: PROTOCOL_VERSION,
        session_id: session.id,
        assigned_ipv4: session.ipv4,
        mtu,
        capabilities: session.capabilities,
        server_nonce: session.server_nonce,
    })
    &&& after == rest.insert(session.id, session)
}

/// Whether `session` joins the table `before` of which the device limit took
/// `kicked` out first.
pub open spec fn created(
    before: Sessions,
    claims: SubscriptionClaims,
    kicked: Seq<KickedSession>,
    session: Session,
    mtu: u16,
    message: AllGoodDude,
    after: Sessions,
) -> bool {
    exists|rest: Sessions| #[trigger] limited(before, claims, kicked, rest) && opens(rest, session, mtu, message, after)
}

/// `m` with every session changed by `f`.
pub open spec fn each(m: Sessions, f: spec_fn(Session) -> Session) -> Sessions {
    Map::new(|id: SessionId| m.contains_key(id), |id: SessionId| f(m[id]))
}

// ---------------------------------------------------------------------------
// A table as a list
// ---------------------------------------------------------------------------

/// The table that a list of sessions fills, one after the other.
pub open spec fn table(s: Seq<Session>) -> Sessions
    decreases s.len(),
{
    if s.len() == 0 {
        Map::empty()
    } else {
        table(s.drop_last()).insert(s.last().id, s.last())
    }
}

pub open spec fn distinct(s: Seq<Session>) -> bool {
    forall|i: int, j: int| 0 <= i < j < s.len() ==> (#[trigger] s[i]).id != (#[trigger] s[j]).id
}

pub open spec fn listed(s: Seq<Session>, id: SessionId) -> bool {
    exists|i: int| 0 <= i < s.len() && (#[trigger] s[i]).id == id
}

pub proof fn lemma_table(s: Seq<Session>)
    ensures
        forall|id: SessionId| #[trigger] table(s).contains_key(id) <==> listed(s, id),
        distinct(s) ==> forall|i: int| 0 <= i < s.len() ==> table(s)[(#[trigger] s[i]).id] == s[i],
        table(s).dom().finite(),
        distinct(s) ==> table(s).len() == s.len(),
    decreases s.len(),
{
    if s.len() > 0 {
        let before = s.drop_last();
        lemma_table(before);
        assert forall|id: SessionId| #[trigger] table(s).contains_key(id) <==> listed(s, id) by {
            if listed(before, id) {
                let i = choose|i: int| 0 <= i < before.len() && (#[trigger] before[i]).id == id;
                assert(s[i].id == id);
            }
            if s.last().id == id {
                assert(s[s.len() - 1].id == id);
            }
            if listed(s, id) {
                let i = choose|i: int| 0 <= i < s.len() && (#[trigger] s[i]).id == id;
                if i < before.len() {
                    assert(before[i].id == id);
                }
            }
        }
        if distinct(s) {
            assert forall|i: int, j: int| 0 <= i < j < before.len() implies (#[trigger] before[i]).id != (
            #[trigger] before[j]).id by {
                assert(s[i] == before[i] && s[j] == before[j]);
            }
            assert forall|i: int| 0 <= i < s.len() implies table(s)[(#[trigger] s[i]).id] == s[i] by {
                if i < before.len() {
                    assert(before[i] == s[i]);
                    assert(s[i].id != s[s.len() - 1].id);
                }
            }
            assert(!listed(before, s.last().id)) by {
                if listed(before, s.last().id) {
                    let i = choose|i: int| 0 <= i < before.len() && (#[trigger] before[i]).id == s.last().id;
                    assert(s[i].id == s[s.len() - 1].id);
                }
            }
        }
    }
}

/// How many sessions of a list have a property.
spec fn count_in(s: Seq<Session>, p: spec_fn(Session) -> bool) -> nat
    decreases s.len(),
{
    if s.len() == 0 {
        0
    } else {
        count_in(s.drop_last(), p) + (if p(s.last()) {
            1nat
        } else {
            0
        })
    }
}

proof fn lemma_count(s: Seq<Session>, p: spec_fn(Session) -> bool)
    requires
        distinct(s),
    ensures
        count_where(table(s), p) == count_in(s, p),
        count_in(s, p) <= s.len(),
    decreases s.len(),
{
    let m = table(s);
    let picked = m.dom().filter(|id: SessionId| p(m[id]));
    lemma_table(s);
    if s.len() == 0 {
        assert(picked =~= Set::empty());
    } else {
        let before = s.drop_last();
        let m0 = table(before);
        let picked0 = m0.dom().filter(|id: SessionId| p(m0[id]));
        assert forall|i: int, j: int| 0 <= i < j < before.len() implies (#[trigger] before[i]).id != (
        #[trigger] before[j]).id by {
            assert(s[i] == before[i] && s[j] == before[j]);
        }
        lemma_count(before, p);
        lemma_table(before);
        let id = s.last().id;
        assert(!m0.contains_key(id)) by {
            if listed(before, id) {
                let i = choose|i: int| 0 <= i < before.len() && (#[trigger] before[i]).id == id;
                assert(s[i].id == s[s.len() - 1].id);
            }
        }
        assert(picked0.finite());
        if p(s.last()) {
            assert(picked =~= picked0.insert(id));
        } else {
            assert(picked =~= picked0);
        }
    }
}

/// Replacing an entry of the list, where the id stays.
proof fn lemma_update(s: Seq<Session>, i: int, x: Session)
    requires
        distinct(s),
        0 <= i < s.len(),
        s[i].id == x.id,
    ensures
        distinct(s.update(i, x)),
        table(s.update(i, x)) == table(s).insert(x.id, x),
{
    let t = s.update(i, x);
    assert(distinct(t));
    lemma_table(s);
    lemma_table(t);
    assert forall|id: SessionId| listed(t, id) == listed(s, id) by {
        if listed(s, id) {
            let k = choose|k: int| 0 <= k < s.len() && (#[trigger] s[k]).id == id;
            assert(t[k].id == id);
        }
        if listed(t, id) {
            let k = choose|k: int| 0 <= k < t.len() && (#[trigger] t[k]).id == id;
            assert(s[k].id == id);
        }
    }
    let m = table(s).insert(x.id, x);
    assert(table(s).contains_key(s[i].id));
    assert forall|id: SessionId|
        table(t).dom().contains(id) == #[trigger] m.dom().contains(id) && (m.dom().contains(id) ==> table(t)[id]
            == m[id]) by {
        assert(listed(t, id) == listed(s, id));
        if listed(t, id) {
            let k = choose|k: int| 0 <= k < t.len() && (#[trigger] t[k]).id == id;
            assert(table(t)[t[k].id] == t[k]);
            if k != i {
                assert(t[k] == s[k]);
                assert(s[k].id != s[i].id);
                assert(table(s)[s[k].id] == s[k]);
            }
        }
    }
    assert(table(t).dom() =~= m.dom());
    assert(table(t) =~= m);
}

/// Taking an entry off the list.
proof fn lemma_remove(s: Seq<Session>, i: int)
    requires
        distinct(s),
        0 <= i < s.len(),
    ensures
        distinct(s.remove(i)),
        table(s.remove(i)) == table(s).remove(s[i].id),
{
    let t = s.remove(i);
    assert forall|a: int, b: int| 0 <= a < b < t.len() implies (#[trigger] t[a]).id != (#[trigger] t[b]).id by {
        let a0 = if a < i {
            a
        } else {
            a + 1
        };
        let b0 = if b < i {
            b
        } else {
            b + 1
        };
        assert(t[a] == s[a0] && t[b] == s[b0]);
    }
    lemma_table(s);
    lemma_table(t);
    let m = table(s).remove(s[i].id);
    assert forall|id: SessionId|
        table(t).dom().contains(id) == #[trigger] m.dom().contains(id) && (m.dom().contains(id) ==> table(t)[id]
            == m[id]) by {
        if listed(t, id) {
            let k = choose|k: int| 0 <= k < t.len() && (#[trigger] t[k]).id == id;
            let k0 = if k < i {
                k
            } else {
                k + 1
            };
            assert(t[k] == s[k0]);
            assert(s[k0].id == id);
            assert(s[k0].id != s[i].id);
            assert(table(t)[t[k].id] == t[k]);
            assert(table(s)[s[k0].id] == s[k0]);
        }
        if m.contains_key(id) {
            let k = choose|k: int| 0 <= k < s.len() && (#[trigger] s[k]).id == id;
            let k0 = if k < i {
                k
            } else {
                k - 1
            };
            assert(k != i);
            assert(t[k0] == s[k]);
        }
    }
    assert(table(t).dom() =~= m.dom());
    assert(table(t) =~= m);
}

/// Appending a session with an id of its own.
proof fn lemma_push(s: Seq<Session>, x: Session)
    requires
        distinct(s),
        !listed(s, x.id),
    ensures
        distinct(s.push(x)),
        table(s.push(x)) == table(s).insert(x.id, x),
{
    let t = s.push(x);
    assert forall|a: int, b: int| 0 <= a < b < t.len() implies (#[trigger] t[a]).id != (#[trigger] t[b]).id by {
        assert(t[a] == s[a]);
        if b < s.len() {
            assert(t[b] == s[b]);
        } else if t[a].id == t[b].id {
            assert(s[a].id == x.id);
        }
    }
    assert(t.drop_last() =~= s);
}

fn same_array<const N: usize>(a: &[u8; N], b: &[u8; N]) -> (yes: bool)
    ensures
        yes == (*a == *b),
{
    let yes: bool = same_bytes(a, b);
    proof {
        if yes {
            assert(*a =~= *b);
        }
    }
    yes
}

fn is_nonce(slot: &Option<[u8; SERVER_NONCE_SIZE]>, nonce: &[u8; SERVER_NONCE_SIZE]) -> (yes: bool)
    ensures
        yes == (*slot == Some(*nonce)),
{
    match slot {
        Some(held) => same_array(held, nonce),
        None => false,
    }
}

// ---------------------------------------------------------------------------
// The manager
// ---------------------------------------------------------------------------

/// All sessions, and whether they changed since they were last written to
/// disk.
pub struct SessionManager {
    pub(super) sessions: Vec<Session>,
    pub(super) unsaved: bool,
}

impl View for SessionManager {
    type V = Sessions;

    closed spec fn view(&self) -> Sessions {
        table(self.sessions@)
    }
}

impl SessionManager {
    /// No two sessions have the same id.
    pub closed spec fn wf(self) -> bool {
        distinct(self.sessions@)
    }

    pub closed spec fn dirty(self) -> bool {
        self.unsaved
    }

    /// The sessions in the order in which they are kept.
    pub closed spec fn order(self) -> Seq<Session> {
        self.sessions@
    }

    /// There are finitely many sessions.
    pub proof fn lemma_finite(self)
        ensures
            self@.dom().finite(),
    {
        lemma_table(self.sessions@);
    }

    pub(super) proof fn lemma_parts(self)
        ensures
            self@ == table(self.sessions@),
            self.wf() == distinct(self.sessions@),
    {
    }

    pub fn new() -> (manager: Self)
        ensures
            manager.wf(),
            manager@ == Map::<SessionId, Session>::empty(),
            !manager.dirty(),
    {
        SessionManager { sessions: Vec::new(), unsaved: false }
    }

    /// Whether there is something to write to disk; from now on it counts as
    /// written.
    pub fn take_unsaved(&mut self) -> (unsaved: bool)
        ensures
            unsaved == old(self).dirty(),
            !final(self).dirty(),
            final(self)@ == old(self)@,
            old(self).wf() ==> final(self).wf(),
    {
        let unsaved: bool = self.unsaved;
        self.unsaved = false;
        unsaved
    }

    fn position(&self, id: &SessionId) -> (at: Option<usize>)
        requires
            self.wf(),
        ensures
            match at {
                Some(i) => i < self.sessions@.len() && self.sessions@[i as int].id == *id && self@.contains_key(*id)
                    && self@[*id] == self.sessions@[i as int],
                None => !self@.contains_key(*id) && !listed(self.sessions@, *id),
            },
    {
        proof {
            lemma_table(self.sessions@);
        }
        let mut i: usize = 0;
        while i < self.sessions.len()
            invariant
                self.wf(),
                i <= self.sessions@.len(),
                forall|j: int| 0 <= j < i ==> (#[trigger] self.sessions@[j]).id != *id,
                forall|x: SessionId| #[trigger] table(self.sessions@).contains_key(x) <==> listed(self.sessions@, x),
                forall|j: int|
                    0 <= j < self.sessions@.len() ==> table(self.sessions@)[(#[trigger] self.sessions@[j]).id]
                        == self.sessions@[j],
            decreases self.sessions@.len() - i,
        {
            if same_array(&self.sessions[i].id, id) {
                assert(listed(self.sessions@, *id)) by {
                    assert(self.sessions@[i as int].id == *id);
                }
                return Some(i);
            }
            i = i + 1;
        }
        None
    }

    fn replace(&mut self, i: usize, session: Session)
        requires
            old(self).wf(),
            i < old(self).sessions@.len(),
            old(self).sessions@[i as int].id == session.id,
        ensures
            final(self).wf(),
            final(self)@ == old(self)@.insert(session.id, session),
            final(self).unsaved == old(self).unsaved,
            final(self).sessions@ == old(self).sessions@.update(i as int, session),
    {
        proof {
            lemma_update(self.sessions@, i as int, session);
        }
        self.sessions.set(i, session);
    }

    /// Puts a session in the table, in place of one with the same id.
    pub(super) fn insert(&mut self, session: Session)
        requires
            old(self).wf(),
        ensures
            final(self).wf(),
            final(self)@ == old(self)@.insert(session.id, session),
            final(self).dirty() == old(self).dirty(),
    {
        match self.position(&session.id) {
            Some(i) => self.replace(i, session),
            None => {
                proof {
                    lemma_push(self.sessions@, session);
                }
                self.sessions.push(session);
            },
        }
    }

    /// Opens a session for a verified subscription. The device limit applies
    /// first; then the session gets the lowest free address.
    pub fn create_session(
        &mut self,
        client_address: PeerAddr,
        link: ClientLink,
        capabilities: u32,
        client_nonce: [u8; 32],
        last_sequence: u64,
        mtu: u16,
        subscription: &SubscriptionClaims,
        now: u64,
        fresh: &Fresh,
    ) -> (result: Result<(AllGoodDude, Vec<KickedSession>), CreateSessionError>)
        requires
            old(self).wf(),
        ensures
            final(self).wf(),
            result matches Ok(opened) ==> {
                let session = begun(
                    client_address,
                    link,
                    capabilities,
                    client_nonce,
                    last_sequence,
                    *subscription,
                    opened.0.assigned_ipv4,
                    now,
                    *fresh,
                );
                &&& created(old(self)@, *subscription, opened.1@, session, mtu, opened.0, final(self)@)
                &&& final(self).dirty()
            },
            result matches Err(error) ==> {
                &&& error == CreateSessionError::NoAddresses
                &&& exists|kicked: Seq<KickedSession>| #[trigger]
                    limited(old(self)@, *subscription, kicked, final(self)@)
                &&& forall|host: u8| 2 <= host <= 254 ==> #[trigger] host_used(final(self)@, host)
                &&& final(self).dirty() == old(self).dirty()
            },
    {
        let kicked = self.enforce_device_limit(subscription);
        assert(limited(old(self)@, *subscription, kicked@, self@));
        let host: u8 = match self.allocate_host() {
            Some(host) => host,
            None => return Err(CreateSessionError::NoAddresses),
        };
        let assigned_ipv4: [u8; 4] = [10, 77, 0, host];
        let message = AllGoodDude {
            protocol_version: PROTOCOL_VERSION,
            session_id: fresh.session_id,
            assigned_ipv4,
            mtu,
            capabilities,
            server_nonce: fresh.nonce,
        };
        let session = Session {
            id: fresh.session_id,
            ipv4: assigned_ipv4,
            client_address,
            link,
            capabilities,
            last_sequence,
            created_at: now,
            last_activity: now,
            last_rekey: now,
            client_nonce,
            server_nonce: fresh.nonce,
            prev_nonce: None,
            pending_nonce: None,
            client_id: subscription.client_id,
            token_id: subscription.token_id,
            subscription_expires_at: subscription.expires_at,
            plan: subscription.plan,
            device_limit: subscription.device_limit,
            max_mbps: subscription.max_mbps,
            rate: RateLimit::new_at(subscription.max_mbps, now),
        };
        assert(assigned_ipv4@ =~= seq![10u8, 77u8, 0u8, host]);
        assert(assigned_ipv4[3] == host);
        let ghost rest = self@;
        self.insert(session);
        self.unsaved = true;
        assert(limited(old(self)@, *subscription, kicked@, rest));
        assert(opens(rest, session, mtu, message, self@));
        assert(session == begun(
            client_address,
            link,
            capabilities,
            client_nonce,
            last_sequence,
            *subscription,
            assigned_ipv4,
            now,
            *fresh,
        ));
        assert(created(old(self)@, *subscription, kicked@, session, mtu, message, self@));
        Ok((message, kicked))
    }

    /// Gives a session back to a client that shows one of its resume tokens.
    pub fn resume_session(
        &mut self,
        session_id: &SessionId,
        resume_token: &[u8; 32],
        new_client_address: PeerAddr,
        new_link: ClientLink,
        sequence: u64,
        mtu: u16,
        now: u64,
    ) -> (result: Option<StillGoodDude>)
        requires
            old(self).wf(),
        ensures
            final(self).wf(),
            result is Some <==> old(self)@.contains_key(*session_id) && old(self)@[*session_id].has_token(*resume_token),
            result is None ==> final(self)@ == old(self)@ && final(self).dirty() == old(self).dirty(),
            result matches Some(message) ==> {
                let session = old(self)@[*session_id];
                &&& message == (StillGoodDude {
                    session_id: *session_id,
                    assigned_ipv4: session.ipv4,
                    mtu,
                    capabilities: session.capabilities,
                })
                &&& final(self)@ == old(self)@.insert(
                    *session_id,
                    session.resumed(*resume_token, new_client_address, new_link, sequence, now),
                )
                &&& final(self).dirty()
            },
    {
        let i: usize = match self.position(session_id) {
            Some(i) => i,
            None => return None,
        };
        let mut session = self.sessions[i];
        let matches_current: bool = same_array(&session.server_nonce, resume_token);
        let matches_prev: bool = is_nonce(&session.prev_nonce, resume_token);
        let matches_pending: bool = is_nonce(&session.pending_nonce, resume_token);
        if !matches_current && !matches_prev && !matches_pending {
            return None;
        }
        if matches_pending {
            session.prev_nonce = Some(session.server_nonce);
            session.server_nonce = *resume_token;
            session.pending_nonce = None;
        } else if matches_current {
            session.prev_nonce = None;
            session.pending_nonce = None;
        }
        session.client_address = new_client_address;
        session.link = new_link;
        session.last_sequence = sequence;
        session.last_activity = now;
        let message = StillGoodDude::new(session.id, session.ipv4, mtu, session.capabilities);
        self.replace(i, session);
        self.unsaved = true;
        Some(message)
    }

    /// The token on offer to a client that asks for one; a new one where none
    /// is on offer yet.
    pub fn rekey_offer(
        &mut self,
        session_id: &SessionId,
        client_address: PeerAddr,
        fresh: &[u8; SERVER_NONCE_SIZE],
    ) -> (offer: Option<[u8; SERVER_NONCE_SIZE]>)
        requires
            old(self).wf(),
        ensures
            final(self).wf(),
            offer is Some <==> old(self)@.contains_key(*session_id) && old(self)@[*session_id].client_address
                == client_address,
            offer is None ==> final(self)@ == old(self)@ && final(self).dirty() == old(self).dirty(),
            offer is Some ==> {
                let session = old(self)@[*session_id];
                &&& final(self)@ == old(self)@.insert(*session_id, session.offering(*fresh))
                &&& offer == session.offering(*fresh).pending_nonce
                &&& final(self).dirty() == (old(self).dirty() || session.pending_nonce is None)
            },
    {
        let i: usize = match self.position(session_id) {
            Some(i) => i,
            None => return None,
        };
        let mut session = self.sessions[i];
        if session.client_address != client_address {
            return None;
        }
        if session.pending_nonce.is_none() {
            session.pending_nonce = Some(*fresh);
            self.unsaved = true;
        }
        self.replace(i, session);
        session.pending_nonce
    }

    /// Makes the token on offer the current one where the client confirms it;
    /// says which token is current.
    pub fn rekey_confirm(
        &mut self,
        session_id: &SessionId,
        nonce: &[u8; SERVER_NONCE_SIZE],
        client_address: PeerAddr,
        now: u64,
    ) -> (current: Option<[u8; SERVER_NONCE_SIZE]>)
        requires
            old(self).wf(),
        ensures
            final(self).wf(),
            current is Some <==> old(self)@.contains_key(*session_id) && old(self)@[*session_id].client_address
                == client_address,
            current is None ==> final(self)@ == old(self)@ && final(self).dirty() == old(self).dirty(),
            current matches Some(current) ==> {
                let session = old(self)@[*session_id];
                &&& final(self)@ == old(self)@.insert(*session_id, session.confirmed(*nonce, now))
                &&& current == session.confirmed(*nonce, now).server_nonce
                &&& final(self).dirty() == (old(self).dirty() || session.pending_nonce == Some(*nonce))
            },
    {
        let i: usize = match self.position(session_id) {
            Some(i) => i,
            None => return None,
        };
        let mut session = self.sessions[i];
        if session.client_address != client_address {
            return None;
        }
        if is_nonce(&session.pending_nonce, nonce) {
            session.prev_nonce = Some(session.server_nonce);
            session.server_nonce = *nonce;
            session.pending_nonce = None;
            session.last_rekey = now;
            self.unsaved = true;
        }
        self.replace(i, session);
        Some(session.server_nonce)
    }

    /// Notes a sign of life; the answer may be to offer a new token.
    pub fn touch_session(
        &mut self,
        session_id: &SessionId,
        client_address: PeerAddr,
        sequence: u64,
        now: u64,
        fresh: &[u8; SERVER_NONCE_SIZE],
    ) -> (offer: Option<Option<[u8; SERVER_NONCE_SIZE]>>)
        requires
            old(self).wf(),
        ensures
            final(self).wf(),
            offer is Some <==> {
                &&& old(self)@.contains_key(*session_id)
                &&& old(self)@[*session_id].client_address == client_address
                &&& in_window(old(self)@[*session_id].last_sequence, sequence)
            },
            offer is None ==> final(self)@ == old(self)@ && final(self).dirty() == old(self).dirty(),
            offer matches Some(offer) ==> {
                let session = old(self)@[*session_id];
                &&& final(self)@ == old(self)@.insert(*session_id, session.touched(sequence, now, *fresh))
                &&& offer == session.touched(sequence, now, *fresh).pending_nonce
                &&& final(self).dirty() == (old(self).dirty() || session.pending_nonce is None && session.rekey_due(
                    now,
                ))
            },
    {
        let i: usize = match self.position(session_id) {
            Some(i) => i,
            None => return None,
        };
        let mut session = self.sessions[i];
        if session.client_address != client_address {
            return None;
        }
        if !accept_sequence(&mut session.last_sequence, sequence) {
            return None;
        }
        session.last_activity = now;
        if session.pending_nonce.is_none() && now >= session.last_rekey && now - session.last_rekey >= REKEY_AFTER_MS {
            session.pending_nonce = Some(*fresh);
            self.unsaved = true;
        }
        self.replace(i, session);
        Some(session.pending_nonce)
    }

    pub fn get(&self, id: &SessionId) -> (session: Option<&Session>)
        requires
            self.wf(),
        ensures
            match session {
                Some(session) => self@.contains_key(*id) && *session == self@[*id] && session.id == *id,
                None => !self@.contains_key(*id),
            },
    {
        match self.position(id) {
            Some(i) => Some(&self.sessions[i]),
            None => None,
        }
    }

    /// Ends a session.
    pub fn remove(&mut self, id: &SessionId) -> (session: Option<Session>)
        requires
            old(self).wf(),
        ensures
            final(self).wf(),
            final(self)@ == old(self)@.remove(*id),
            session == (if old(self)@.contains_key(*id) {
                Some(old(self)@[*id])
            } else {
                None
            }),
            final(self).dirty() == (old(self).dirty() || session is Some),
    {
        match self.position(id) {
            Some(i) => {
                proof {
                    lemma_remove(self.sessions@, i as int);
                }
                let session = self.sessions.remove(i);
                self.unsaved = true;
                Some(session)
            },
            None => {
                assert(self@ =~= old(self)@.remove(*id));
                None
            },
        }
    }

    fn detach(&mut self, link: ClientLink) -> (detached: usize)
        requires
            old(self).wf(),
        ensures
            final(self).wf(),
            final(self)@ == each(
                old(self)@,
                |s: Session|
                    if s.link == link {
                        Session { link: ClientLink::Detached, ..s }
                    } else {
                        s
                    },
            ),
            detached == count_where(old(self)@, |s: Session| s.link == link),
            final(self).dirty() == old(self).dirty(),
    {
        let ghost f = |s: Session|
            if s.link == link {
                Session { link: ClientLink::Detached, ..s }
            } else {
                s
            };
        let ghost p = |s: Session| s.link == link;
        let ghost before = self.sessions@;
        let mut detached: usize = 0;
        let mut i: usize = 0;
        while i < self.sessions.len()
            invariant
                i <= self.sessions@.len(),
                self.sessions@.len() == before.len(),
                f == (|s: Session|
                    if s.link == link {
                        Session { link: ClientLink::Detached, ..s }
                    } else {
                        s
                    }),
                p == (|s: Session| s.link == link),
                forall|j: int| 0 <= j < i ==> #[trigger] self.sessions@[j] == f(before[j]),
                forall|j: int| i <= j < before.len() ==> #[trigger] self.sessions@[j] == before[j],
                detached == count_in(before.take(i as int), p),
                detached <= i,
                self.unsaved == old(self).unsaved,
            decreases self.sessions@.len() - i,
        {
            assert(before.take(i + 1).drop_last() =~= before.take(i as int));
            assert(before.take(i + 1).last() == before[i as int]);
            let mut session = self.sessions[i];
            if session.link == link {
                session.link = ClientLink::Detached;
                self.sessions.set(i, session);
                detached = detached + 1;
            }
            i = i + 1;
        }
        proof {
            assert(before.take(before.len() as int) =~= before);
            lemma_count(before, p);
            let after = self.sessions@;
            assert forall|a: int, b: int| 0 <= a < b < after.len() implies (#[trigger] after[a]).id != (
            #[trigger] after[b]).id by {
                assert(before[a].id != before[b].id);
            }
            lemma_each(before, after, f);
        }
        detached
    }

    /// Detaches the sessions of a QUIC connection that ended.
    pub fn detach_by_stable_id(&mut self, stable_id: usize) -> (detached: usize)
        requires
            old(self).wf(),
        ensures
            final(self).wf(),
            final(self)@ == each(
                old(self)@,
                |s: Session|
                    if s.link == (ClientLink::Quic { stable_id }) {
                        Session { link: ClientLink::Detached, ..s }
                    } else {
                        s
                    },
            ),
            detached == count_where(old(self)@, |s: Session| s.link == (ClientLink::Quic { stable_id })),
            final(self).dirty() == old(self).dirty(),
    {
        self.detach(ClientLink::Quic { stable_id })
    }

    /// Detaches the sessions of a TLS stream that ended.
    pub fn detach_by_stream_id(&mut self, stream_id: u64) -> (detached: usize)
        requires
            old(self).wf(),
        ensures
            final(self).wf(),
            final(self)@ == each(
                old(self)@,
                |s: Session|
                    if s.link == (ClientLink::Stream { id: stream_id }) {
                        Session { link: ClientLink::Detached, ..s }
                    } else {
                        s
                    },
            ),
            detached == count_where(old(self)@, |s: Session| s.link == (ClientLink::Stream { id: stream_id })),
            final(self).dirty() == old(self).dirty(),
    {
        self.detach(ClientLink::Stream { id: stream_id })
    }

    /// A session that can be reached and has this address.
    pub fn find_by_ipv4(&self, ipv4: [u8; 4]) -> (session: Option<&Session>)
        requires
            self.wf(),
        ensures
            match session {
                Some(session) => self@.contains_key(session.id) && self@[session.id] == *session && session.ipv4 == ipv4
                    && !(session.link is Detached),
                None => forall|id: SessionId| #[trigger]
                    self@.contains_key(id) ==> self@[id].ipv4 != ipv4 || self@[id].link is Detached,
            },
    {
        proof {
            lemma_table(self.sessions@);
        }
        let mut i: usize = 0;
        while i < self.sessions.len()
            invariant
                self.wf(),
                i <= self.sessions@.len(),
                forall|j: int|
                    0 <= j < i ==> (#[trigger] self.sessions@[j]).ipv4 != ipv4 || self.sessions@[j].link is Detached,
                forall|x: SessionId| #[trigger] table(self.sessions@).contains_key(x) <==> listed(self.sessions@, x),
                forall|j: int|
                    0 <= j < self.sessions@.len() ==> table(self.sessions@)[(#[trigger] self.sessions@[j]).id]
                        == self.sessions@[j],
            decreases self.sessions@.len() - i,
        {
            let session = &self.sessions[i];
            if same_array(&session.ipv4, &ipv4) && session.link.is_live() {
                assert(listed(self.sessions@, session.id)) by {
                    assert(self.sessions@[i as int].id == session.id);
                }
                return Some(session);
            }
            i = i + 1;
        }
        assert forall|id: SessionId| #[trigger] self@.contains_key(id) implies self@[id].ipv4 != ipv4
            || self@[id].link is Detached by {
            let k = choose|k: int| 0 <= k < self.sessions@.len() && (#[trigger] self.sessions@[k]).id == id;
            assert(self@[self.sessions@[k].id] == self.sessions@[k]);
        }
        None
    }

    /// Drops the sessions that were silent too long.
    pub fn remove_expired(&mut self, now: u64) -> (removed: usize)
        requires
            old(self).wf(),
        ensures
            final(self).wf(),
            final(self)@ == old(self)@.restrict(
                Set::new(|id: SessionId| old(self)@.contains_key(id) && !old(self)@[id].expired(now)),
            ),
            removed == count_where(old(self)@, |s: Session| s.expired(now)),
            final(self).dirty() == (old(self).dirty() || removed > 0),
    {
        let ghost p = |s: Session| s.expired(now);
        let ghost all = self.sessions@;
        let mut kept: Vec<Session> = Vec::new();
        let mut removed: usize = 0;
        let mut i: usize = 0;
        while i < self.sessions.len()
            invariant
                self.sessions@ == all,
                i <= all.len(),
                distinct(all),
                p == (|s: Session| s.expired(now)),
                removed == count_in(all.take(i as int), p),
                removed <= i,
                keeps(all.take(i as int), kept@, now),
                distinct(kept@),
            decreases all.len() - i,
        {
            let ghost prior = kept@;
            assert(all.take(i + 1).drop_last() =~= all.take(i as int));
            assert(all.take(i + 1).last() == all[i as int]);
            let session = self.sessions[i];
            proof {
                assert(!listed(prior, session.id)) by {
                    if listed(prior, session.id) {
                        let k = choose|k: int| 0 <= k < prior.len() && (#[trigger] prior[k]).id == session.id;
                        assert(listed(all.take(i as int), prior[k].id));
                        let j = choose|j: int|
                            0 <= j < i && (#[trigger] all.take(i as int)[j]).id == session.id;
                        assert(all[j].id == all[i as int].id);
                    }
                }
                lemma_keeps(all.take(i + 1), prior, now);
            }
            if session.last_activity <= now && now - session.last_activity >= SESSION_TIMEOUT_MS {
                removed = removed + 1;
            } else {
                proof {
                    lemma_push(kept@, session);
                }
                kept.push(session);
            }
            i = i + 1;
        }
        self.sessions = kept;
        if removed > 0 {
            self.unsaved = true;
        }
        proof {
            assert(all.take(all.len() as int) =~= all);
            lemma_count(all, p);
            lemma_kept_table(all, kept@, now);
        }
        removed
    }

    pub fn len(&self) -> (len: usize)
        requires
            self.wf(),
        ensures
            len == self@.len(),
    {
        proof {
            lemma_table(self.sessions@);
        }
        self.sessions.len()
    }

    pub fn is_empty(&self) -> (empty: bool)
        requires
            self.wf(),
        ensures
            empty == (self@.len() == 0),
    {
        self.len() == 0
    }

    /// Makes room for one more session of a subscription.
    fn enforce_device_limit(&mut self, subscription: &SubscriptionClaims) -> (kicked: Vec<KickedSession>)
        requires
            old(self).wf(),
        ensures
            final(self).wf(),
            limited(old(self)@, *subscription, kicked@, final(self)@),
            final(self).dirty() == old(self).dirty(),
    {
        let mut kicked: Vec<KickedSession> = Vec::new();
        if subscription.device_limit == UNLIMITED_DEVICES {
            return kicked;
        }
        let limit: usize = if subscription.device_limit == 0 {
            1
        } else {
            subscription.device_limit as usize
        };
        let ghost client = subscription.client_id;
        loop
            invariant
                self.wf(),
                limit == device_cap(subscription.device_limit),
                limit >= 1,
                client == subscription.client_id,
                subscription.device_limit != UNLIMITED_DEVICES,
                self.dirty() == old(self).dirty(),
                forall|more: Seq<KickedSession>, rest: Sessions| #[trigger]
                    kicks(self@, client, limit as nat, more, rest) ==> kicks(
                        old(self)@,
                        client,
                        limit as nat,
                        kicked@ + more,
                        rest,
                    ),
            decreases self.order().len(),
        {
            let count: usize = self.client_session_count(&subscription.client_id);
            if count < limit {
                proof {
                    let none = Seq::<KickedSession>::empty();
                    assert(kicks(self@, client, limit as nat, none, self@));
                    assert(kicked@ + none =~= kicked@);
                }
                return kicked;
            }
            let ghost m = self@;
            let ghost before = kicked@;
            match self.kick_oldest(&subscription.client_id) {
                Some(session) => {
                    kicked.push(session);
                    proof {
                        assert forall|more: Seq<KickedSession>, rest: Sessions| #[trigger]
                            kicks(self@, client, limit as nat, more, rest) implies kicks(
                            old(self)@,
                            client,
                            limit as nat,
                            kicked@ + more,
                            rest,
                        ) by {
                            let longer = seq![session] + more;
                            assert(longer.skip(1) =~= more);
                            assert(kicks(m, client, limit as nat, longer, rest));
                            assert(before + longer =~= kicked@ + more);
                        }
                    }
                },
                None => {
                    // A client with at least one session has an oldest one.
                    proof {
                        lemma_no_sessions(m, client);
                    }
                    return kicked;
                },
            }
        }
    }

    fn client_session_count(&self, client_id: &[u8; CLIENT_ID_SIZE]) -> (count: usize)
        requires
            self.wf(),
        ensures
            count == client_count(self@, *client_id),
    {
        let ghost p = |s: Session| s.client_id == *client_id;
        let mut count: usize = 0;
        let mut i: usize = 0;
        while i < self.sessions.len()
            invariant
                i <= self.sessions@.len(),
                p == (|s: Session| s.client_id == *client_id),
                count == count_in(self.sessions@.take(i as int), p),
                count <= i,
            decreases self.sessions@.len() - i,
        {
            assert(self.sessions@.take(i + 1).drop_last() =~= self.sessions@.take(i as int));
            assert(self.sessions@.take(i + 1).last() == self.sessions@[i as int]);
            if same_array(&self.sessions[i].client_id, client_id) {
                count = count + 1;
            }
            i = i + 1;
        }
        proof {
            assert(self.sessions@.take(i as int) =~= self.sessions@);
            lemma_count(self.sessions@, p);
        }
        count
    }

    /// Ends the session of a client that goes first.
    fn kick_oldest(&mut self, client_id: &[u8; CLIENT_ID_SIZE]) -> (kicked: Option<KickedSession>)
        requires
            old(self).wf(),
        ensures
            final(self).wf(),
            match kicked {
                Some(kicked) => oldest(old(self)@, *client_id, kicked.id) && kicked.link == old(self)@[kicked.id].link
                    && final(self)@ == old(self)@.remove(kicked.id) && final(self).order().len() < old(
                    self,
                ).order().len(),
                None => final(self)@ == old(self)@ && forall|id: SessionId| !of_client(old(self)@, *client_id, id),
            },
            final(self).dirty() == old(self).dirty(),
    {
        let ghost s = self.sessions@;
        proof {
            lemma_table(s);
        }
        let mut detached: Option<usize> = None;
        let mut live: Option<usize> = None;
        let mut i: usize = 0;
        while i < self.sessions.len()
            invariant
                self.sessions@ == s,
                i <= s.len(),
                match detached {
                    Some(d) => d < i && s[d as int].client_id == *client_id && s[d as int].link is Detached && forall|
                        j: int,
                    |
                        0 <= j < i && (#[trigger] s[j]).client_id == *client_id && s[j].link is Detached
                            ==> s[d as int].last_activity <= s[j].last_activity,
                    None => forall|j: int|
                        0 <= j < i && (#[trigger] s[j]).client_id == *client_id ==> !(s[j].link is Detached),
                },
                match live {
                    Some(l) => l < i && s[l as int].client_id == *client_id && !(s[l as int].link is Detached)
                        && forall|j: int|
                        0 <= j < i && (#[trigger] s[j]).client_id == *client_id && !(s[j].link is Detached)
                            ==> s[l as int].last_activity <= s[j].last_activity,
                    None => forall|j: int|
                        0 <= j < i && (#[trigger] s[j]).client_id == *client_id ==> s[j].link is Detached,
                },
            decreases s.len() - i,
        {
            if same_array(&self.sessions[i].client_id, client_id) {
                let activity: u64 = self.sessions[i].last_activity;
                if !self.sessions[i].link.is_live() {
                    let replace: bool = match detached {
                        Some(d) => activity < self.sessions[d].last_activity,
                        None => true,
                    };
                    if replace {
                        detached = Some(i);
                    }
                } else {
                    let replace: bool = match live {
                        Some(l) => activity < self.sessions[l].last_activity,
                        None => true,
                    };
                    if replace {
                        live = Some(i);
                    }
                }
            }
            i = i + 1;
        }
        let first: Option<usize> = match detached {
            Some(d) => Some(d),
            None => live,
        };
        match first {
            Some(at) => {
                proof {
                    lemma_remove(s, at as int);
                    assert(listed(s, s[at as int].id)) by {
                        assert(s[at as int].id == s[at as int].id);
                    }
                    assert forall|id: SessionId| #[trigger] of_client(old(self)@, *client_id, id) implies exists|k: int|
                        0 <= k < s.len() && s[k].id == id && s[k] == old(self)@[id] by {
                        let k = choose|k: int| 0 <= k < s.len() && (#[trigger] s[k]).id == id;
                        assert(table(s)[s[k].id] == s[k]);
                    }
                }
                let session = self.sessions.remove(at);
                Some(KickedSession { id: session.id, link: session.link })
            },
            None => {
                assert forall|id: SessionId| !of_client(old(self)@, *client_id, id) by {
                    if of_client(old(self)@, *client_id, id) {
                        let k = choose|k: int| 0 <= k < s.len() && (#[trigger] s[k]).id == id;
                        assert(table(s)[s[k].id] == s[k]);
                    }
                }
                None
            },
        }
    }

    /// The lowest free host number.
    fn allocate_host(&self) -> (host: Option<u8>)
        requires
            self.wf(),
        ensures
            match host {
                Some(host) => lowest_free(self@, host),
                None => forall|host: u8| 2 <= host <= 254 ==> #[trigger] host_used(self@, host),
            },
    {
        let mut host: u8 = 2;
        while host <= 254
            invariant
                self.wf(),
                2 <= host,
                forall|lower: u8| 2 <= lower < host ==> #[trigger] host_used(self@, lower),
            decreases 255 - host,
        {
            if !self.uses_host(host) {
                return Some(host);
            }
            host = host + 1;
        }
        None
    }

    fn uses_host(&self, host: u8) -> (yes: bool)
        requires
            self.wf(),
        ensures
            yes == host_used(self@, host),
    {
        proof {
            lemma_table(self.sessions@);
        }
        let mut i: usize = 0;
        while i < self.sessions.len()
            invariant
                self.wf(),
                i <= self.sessions@.len(),
                forall|j: int| 0 <= j < i ==> (#[trigger] self.sessions@[j]).ipv4[3] != host,
                forall|x: SessionId| #[trigger] table(self.sessions@).contains_key(x) <==> listed(self.sessions@, x),
                forall|j: int|
                    0 <= j < self.sessions@.len() ==> table(self.sessions@)[(#[trigger] self.sessions@[j]).id]
                        == self.sessions@[j],
            decreases self.sessions@.len() - i,
        {
            if self.sessions[i].ipv4[3] == host {
                assert(listed(self.sessions@, self.sessions@[i as int].id));
                assert(self@.contains_key(self.sessions@[i as int].id));
                return true;
            }
            i = i + 1;
        }
        assert(!host_used(self@, host)) by {
            if host_used(self@, host) {
                let id = choose|id: SessionId| #[trigger] self@.contains_key(id) && self@[id].ipv4[3] == host;
                let k = choose|k: int| 0 <= k < self.sessions@.len() && (#[trigger] self.sessions@[k]).id == id;
                assert(self@[self.sessions@[k].id] == self.sessions@[k]);
            }
        }
        false
    }
}

impl Default for SessionManager {
    fn default() -> (manager: Self)
        ensures
            manager.wf(),
            manager@ == Map::<SessionId, Session>::empty(),
            !manager.dirty(),
    {
        Self::new()
    }
}

/// Whether `kept` holds exactly the sessions of `s` that are not expired.
spec fn keeps(s: Seq<Session>, kept: Seq<Session>, now: u64) -> bool {
    &&& forall|k: int|
        0 <= k < kept.len() ==> listed(s, (#[trigger] kept[k]).id) && s.contains(kept[k]) && !kept[k].expired(now)
    &&& forall|i: int| 0 <= i < s.len() && !(#[trigger] s[i]).expired(now) ==> kept.contains(s[i])
}

proof fn lemma_keeps(s: Seq<Session>, kept: Seq<Session>, now: u64)
    requires
        s.len() > 0,
        keeps(s.drop_last(), kept, now),
    ensures
        s.last().expired(now) ==> keeps(s, kept, now),
        !s.last().expired(now) ==> keeps(s, kept.push(s.last()), now),
{
    let before = s.drop_last();
    let next = if s.last().expired(now) {
        kept
    } else {
        kept.push(s.last())
    };
    assert forall|k: int| 0 <= k < next.len() implies listed(s, (#[trigger] next[k]).id) && s.contains(next[k])
        && !next[k].expired(now) by {
        if k < kept.len() {
            assert(kept[k] == next[k]);
            let i = choose|i: int| 0 <= i < before.len() && before[i] == kept[k];
            assert(s[i] == kept[k]);
        } else {
            assert(s[s.len() - 1] == next[k]);
        }
    }
    assert forall|i: int| 0 <= i < s.len() && !(#[trigger] s[i]).expired(now) implies next.contains(s[i]) by {
        if i < before.len() {
            assert(before[i] == s[i]);
            let k = choose|k: int| 0 <= k < kept.len() && kept[k] == s[i];
            assert(next[k] == s[i]);
        } else {
            assert(next[next.len() - 1] == s[i]);
        }
    }
}

proof fn lemma_kept_table(s: Seq<Session>, kept: Seq<Session>, now: u64)
    requires
        distinct(s),
        distinct(kept),
        keeps(s, kept, now),
    ensures
        table(kept) == table(s).restrict(
            Set::new(|id: SessionId| table(s).contains_key(id) && !table(s)[id].expired(now)),
        ),
{
    lemma_table(s);
    lemma_table(kept);
    let m = table(s).restrict(Set::new(|id: SessionId| table(s).contains_key(id) && !table(s)[id].expired(now)));
    assert forall|id: SessionId| table(kept).contains_key(id) == m.contains_key(id) && (m.contains_key(id) ==> table(
        kept,
    )[id] == m[id]) by {
        if listed(kept, id) {
            let k = choose|k: int| 0 <= k < kept.len() && (#[trigger] kept[k]).id == id;
            let i = choose|i: int| 0 <= i < s.len() && s[i] == kept[k];
            assert(table(s)[s[i].id] == s[i]);
            assert(table(kept)[kept[k].id] == kept[k]);
        }
        if m.contains_key(id) {
            let i = choose|i: int| 0 <= i < s.len() && (#[trigger] s[i]).id == id;
            assert(table(s)[s[i].id] == s[i]);
            let k = choose|k: int| 0 <= k < kept.len() && kept[k] == s[i];
            assert(kept[k].id == id);
        }
    }
    assert(table(kept) =~= m);
}

proof fn lemma_each(s: Seq<Session>, t: Seq<Session>, f: spec_fn(Session) -> Session)
    requires
        distinct(s),
        distinct(t),
        s.len() == t.len(),
        forall|i: int| 0 <= i < s.len() ==> #[trigger] t[i] == f(s[i]),
        forall|i: int| 0 <= i < s.len() ==> (#[trigger] t[i]).id == s[i].id,
    ensures
        table(t) == each(table(s), f),
{
    lemma_table(s);
    lemma_table(t);
    let m = each(table(s), f);
    assert forall|id: SessionId|
        table(t).dom().contains(id) == #[trigger] m.dom().contains(id) && (m.dom().contains(id) ==> table(t)[id]
            == m[id]) by {
        if listed(t, id) {
            let k = choose|k: int| 0 <= k < t.len() && (#[trigger] t[k]).id == id;
            assert(s[k].id == id);
        }
        if listed(s, id) {
            let k = choose|k: int| 0 <= k < s.len() && (#[trigger] s[k]).id == id;
            assert(t[k].id == id);
            assert(table(s)[s[k].id] == s[k]);
            assert(table(t)[t[k].id] == t[k]);
        }
    }
    assert(table(t).dom() =~= m.dom());
    assert(table(t) =~= m);
}

proof fn lemma_no_sessions(m: Sessions, client: [u8; CLIENT_ID_SIZE])
    requires
        forall|id: SessionId| !of_client(m, client, id),
    ensures
        client_count(m, client) == 0,
{
    let p = |s: Session| s.client_id == client;
    let picked = m.dom().filter(|id: SessionId| p(m[id]));
    assert forall|id: SessionId| !picked.contains(id) by {
        assert(!of_client(m, client, id));
    }
    assert(picked =~= Set::empty());
}

} // verus!
