//! The session table on disk.

use bytes::Bytes;
use vstd::prelude::*;

use super::rate::RateLimit;
use super::session::{distinct, lemma_table, listed, table, ClientLink, Session, SessionId, SessionManager};
use crate::auth::token::{SubscriptionPlan, CLIENT_ID_SIZE, TOKEN_ID_SIZE};
use crate::buffer::{bytes_mut_view, bytes_view, freeze, new_buffer, put_slice, put_u32, put_u64, put_u8};
use crate::net::PeerAddr;
use crate::protocol::all_good_dude::{SERVER_NONCE_SIZE, SESSION_ID_SIZE};
use crate::wire::{
    array_at, be_bytes, be_value, lemma_be_bytes_len, lemma_be_range, lemma_bytes_of_value, lemma_low_u32,
    lemma_value_of_bytes, read_u32, read_u64, same_bytes,
};

verus! {

/// `PAYS`.
pub const STORE_MAGIC: [u8; 4] = [80, 65, 89, 83];

pub const STORE_VERSION: u8 = 1;

pub const STORE_HEADER_SIZE: usize = 9;

pub const STORE_RECORD_SIZE: usize = 206;

#[derive(Debug, Clone, Copy, PartialEq, Eq, Structural)]
pub enum StoreError {
    /// store too short
    TooShort,
    /// bad magic
    BadMagic,
    /// unsupported store version
    UnsupportedVersion,
    /// truncated store
    Truncated,
    /// bad plan
    BadPlan,
}

pub open spec fn no_nonce() -> Seq<u8> {
    Seq::new(32, |i: int| 0u8)
}

/// A missing nonce is written as zeros.
pub open spec fn nonce_wire(nonce: Option<[u8; SERVER_NONCE_SIZE]>) -> Seq<u8> {
    match nonce {
        Some(nonce) => nonce@,
        None => no_nonce(),
    }
}

/// What is kept of a session.
pub open spec fn record_wire(s: Session) -> Seq<u8> {
    s.id@ + s.ipv4@ + be_bytes(s.capabilities as nat, 4) + be_bytes(s.last_sequence as nat, 8) + s.client_nonce@
        + s.server_nonce@ + nonce_wire(s.prev_nonce) + nonce_wire(s.pending_nonce) + s.client_id@ + s.token_id@
        + be_bytes(s.subscription_expires_at as nat, 8) + seq![s.plan.code(), s.device_limit] + be_bytes(
        s.max_mbps as nat,
        4,
    )
}

pub open spec fn records_wire(list: Seq<Session>) -> Seq<u8>
    decreases list.len(),
{
    if list.len() == 0 {
        Seq::empty()
    } else {
        records_wire(list.drop_last()) + record_wire(list.last())
    }
}

/// magic, version, count, records.
pub open spec fn store_wire(list: Seq<Session>) -> Seq<u8> {
    STORE_MAGIC@ + seq![STORE_VERSION] + be_bytes(list.len(), 4) + records_wire(list)
}

/// The `k`th record of a store.
pub open spec fn record_at(data: Seq<u8>, k: int) -> Seq<u8> {
    data.subrange(STORE_HEADER_SIZE + k * STORE_RECORD_SIZE, STORE_HEADER_SIZE + (k + 1) * STORE_RECORD_SIZE)
}

pub open spec fn bad_plan(data: Seq<u8>, k: int) -> bool {
    !(1 <= record_at(data, k)[200] <= 3)
}

/// The first fault counts: size, magic, version, length, a plan that is none.
pub open spec fn store_fault(data: Seq<u8>) -> Option<StoreError> {
    if data.len() < STORE_HEADER_SIZE {
        Some(StoreError::TooShort)
    } else if data.take(4) != STORE_MAGIC@ {
        Some(StoreError::BadMagic)
    } else if data[4] != STORE_VERSION {
        Some(StoreError::UnsupportedVersion)
    } else {
        let count = be_value(data.subrange(5, 9));
        if data.len() - STORE_HEADER_SIZE != count * STORE_RECORD_SIZE {
            Some(StoreError::Truncated)
        } else if exists|k: int| 0 <= k < count && #[trigger] bad_plan(data, k) {
            Some(StoreError::BadPlan)
        } else {
            None
        }
    }
}

/// What a session has that no record tells: it is away, as of now, with a
/// full bucket, and zeros are no nonce.
pub open spec fn restored(s: Session, now: u64) -> bool {
    &&& s.client_address == PeerAddr::nobody()
    &&& s.link is Detached
    &&& s.created_at == now
    &&& s.last_activity == now
    &&& s.last_rekey == now
    &&& s.rate == RateLimit::fresh(s.max_mbps, now)
    &&& s.prev_nonce matches Some(nonce) ==> nonce@ != no_nonce()
    &&& s.pending_nonce matches Some(nonce) ==> nonce@ != no_nonce()
}

/// Whether `list` is what a store holds, as it is read at `now`.
pub open spec fn stored(data: Seq<u8>, list: Seq<Session>, now: u64) -> bool {
    &&& store_wire(list) == data
    &&& forall|k: int| 0 <= k < list.len() ==> restored(#[trigger] list[k], now)
}

fn put_nonce(buffer: &mut bytes::BytesMut, nonce: &Option<[u8; SERVER_NONCE_SIZE]>)
    requires
        bytes_mut_view(*old(buffer)).len() + 32 <= isize::MAX,
    ensures
        bytes_mut_view(*final(buffer)) == bytes_mut_view(*old(buffer)) + nonce_wire(*nonce),
{
    match nonce {
        Some(nonce) => put_slice(buffer, nonce),
        None => {
            let zeros: [u8; SERVER_NONCE_SIZE] = [0u8; SERVER_NONCE_SIZE];
            assert(zeros@ =~= no_nonce());
            put_slice(buffer, &zeros)
        },
    }
}

fn nonce_from_bytes(nonce: [u8; SERVER_NONCE_SIZE]) -> (out: Option<[u8; SERVER_NONCE_SIZE]>)
    ensures
        nonce_wire(out) == nonce@,
        out matches Some(nonce) ==> nonce@ != no_nonce(),
{
    let zeros: [u8; SERVER_NONCE_SIZE] = [0u8; SERVER_NONCE_SIZE];
    assert(zeros@ =~= no_nonce());
    if same_bytes(&nonce, &zeros) {
        None
    } else {
        Some(nonce)
    }
}

fn put_record(buffer: &mut bytes::BytesMut, s: &Session)
    requires
        bytes_mut_view(*old(buffer)).len() + STORE_RECORD_SIZE <= isize::MAX,
    ensures
        bytes_mut_view(*final(buffer)) == bytes_mut_view(*old(buffer)) + record_wire(*s),
{
    let ghost before = bytes_mut_view(*buffer);
    proof {
        lemma_be_bytes_len(s.capabilities as nat, 4);
        lemma_be_bytes_len(s.last_sequence as nat, 8);
        lemma_be_bytes_len(s.subscription_expires_at as nat, 8);
        lemma_be_bytes_len(s.max_mbps as nat, 4);
    }
    put_slice(buffer, &s.id);
    put_slice(buffer, &s.ipv4);
    put_u32(buffer, s.capabilities);
    put_u64(buffer, s.last_sequence);
    put_slice(buffer, &s.client_nonce);
    put_slice(buffer, &s.server_nonce);
    put_nonce(buffer, &s.prev_nonce);
    put_nonce(buffer, &s.pending_nonce);
    put_slice(buffer, &s.client_id);
    put_slice(buffer, &s.token_id);
    put_u64(buffer, s.subscription_expires_at);
    put_u8(buffer, s.plan.to_u8());
    put_u8(buffer, s.device_limit);
    put_u32(buffer, s.max_mbps);
    assert(bytes_mut_view(*buffer) =~= before + record_wire(*s));
}

proof fn lemma_record(s: Session)
    ensures
        record_wire(s).len() == STORE_RECORD_SIZE,
        record_wire(s).subrange(0, 16) == s.id@,
        record_wire(s).subrange(16, 20) == s.ipv4@,
        record_wire(s).subrange(20, 24) == be_bytes(s.capabilities as nat, 4),
        record_wire(s).subrange(24, 32) == be_bytes(s.last_sequence as nat, 8),
        record_wire(s).subrange(32, 64) == s.client_nonce@,
        record_wire(s).subrange(64, 96) == s.server_nonce@,
        record_wire(s).subrange(96, 128) == nonce_wire(s.prev_nonce),
        record_wire(s).subrange(128, 160) == nonce_wire(s.pending_nonce),
        record_wire(s).subrange(160, 176) == s.client_id@,
        record_wire(s).subrange(176, 192) == s.token_id@,
        record_wire(s).subrange(192, 200) == be_bytes(s.subscription_expires_at as nat, 8),
        record_wire(s)[200] == s.plan.code(),
        record_wire(s)[201] == s.device_limit,
        record_wire(s).subrange(202, 206) == be_bytes(s.max_mbps as nat, 4),
{
    lemma_be_bytes_len(s.capabilities as nat, 4);
    lemma_be_bytes_len(s.last_sequence as nat, 8);
    lemma_be_bytes_len(s.subscription_expires_at as nat, 8);
    lemma_be_bytes_len(s.max_mbps as nat, 4);
    let r = record_wire(s);
    assert(r.subrange(0, 16) =~= s.id@);
    assert(r.subrange(16, 20) =~= s.ipv4@);
    assert(r.subrange(20, 24) =~= be_bytes(s.capabilities as nat, 4));
    assert(r.subrange(24, 32) =~= be_bytes(s.last_sequence as nat, 8));
    assert(r.subrange(32, 64) =~= s.client_nonce@);
    assert(r.subrange(64, 96) =~= s.server_nonce@);
    assert(r.subrange(96, 128) =~= nonce_wire(s.prev_nonce));
    assert(r.subrange(128, 160) =~= nonce_wire(s.pending_nonce));
    assert(r.subrange(160, 176) =~= s.client_id@);
    assert(r.subrange(176, 192) =~= s.token_id@);
    assert(r.subrange(192, 200) =~= be_bytes(s.subscription_expires_at as nat, 8));
    assert(r.subrange(202, 206) =~= be_bytes(s.max_mbps as nat, 4));
}

proof fn lemma_records_len(list: Seq<Session>)
    ensures
        records_wire(list).len() == list.len() * STORE_RECORD_SIZE,
    decreases list.len(),
{
    if list.len() > 0 {
        lemma_records_len(list.drop_last());
        lemma_record(list.last());
    }
}

proof fn lemma_record_in(list: Seq<Session>, k: int)
    requires
        0 <= k < list.len(),
    ensures
        records_wire(list).len() == list.len() * STORE_RECORD_SIZE,
        records_wire(list).subrange(k * STORE_RECORD_SIZE, (k + 1) * STORE_RECORD_SIZE) == record_wire(list[k]),
    decreases list.len(),
{
    lemma_records_len(list);
    lemma_records_len(list.drop_last());
    lemma_record(list.last());
    let all = records_wire(list);
    if k == list.len() - 1 {
        assert(all.subrange(k * STORE_RECORD_SIZE, (k + 1) * STORE_RECORD_SIZE) =~= record_wire(list[k]));
    } else {
        lemma_record_in(list.drop_last(), k);
        assert(all.subrange(k * STORE_RECORD_SIZE, (k + 1) * STORE_RECORD_SIZE) =~= records_wire(
            list.drop_last(),
        ).subrange(k * STORE_RECORD_SIZE, (k + 1) * STORE_RECORD_SIZE));
    }
}

/// Reads the record at `at`.
fn read_record(data: &[u8], at: usize, now: u64) -> (result: Option<Session>)
    requires
        at + STORE_RECORD_SIZE <= data@.len(),
    ensures
        ({
            let record = data@.subrange(at as int, at + STORE_RECORD_SIZE);
            match result {
                Some(session) => record_wire(session) == record && restored(session, now) && 1 <= record[200] <= 3,
                None => !(1 <= record[200] <= 3),
            }
        }),
{
    assert(data@.len() == data.len());
    let ghost record = data@.subrange(at as int, at + STORE_RECORD_SIZE);
    let plan = match SubscriptionPlan::try_from(data[at + 200]) {
        Ok(plan) => plan,
        Err(_) => return None,
    };
    let id: [u8; SESSION_ID_SIZE] = array_at(data, at);
    let ipv4: [u8; 4] = array_at(data, at + 16);
    let capabilities: u32 = read_u32(data, at + 20);
    let last_sequence: u64 = read_u64(data, at + 24);
    let client_nonce: [u8; 32] = array_at(data, at + 32);
    let server_nonce: [u8; SERVER_NONCE_SIZE] = array_at(data, at + 64);
    let prev: [u8; SERVER_NONCE_SIZE] = array_at(data, at + 96);
    let pending: [u8; SERVER_NONCE_SIZE] = array_at(data, at + 128);
    let client_id: [u8; CLIENT_ID_SIZE] = array_at(data, at + 160);
    let token_id: [u8; TOKEN_ID_SIZE] = array_at(data, at + 176);
    let subscription_expires_at: u64 = read_u64(data, at + 192);
    let device_limit: u8 = data[at + 201];
    let max_mbps: u32 = read_u32(data, at + 202);
    let session = Session {
        id,
        ipv4,
        client_address: PeerAddr::unspecified(),
        link: ClientLink::Detached,
        capabilities,
        last_sequence,
        created_at: now,
        last_activity: now,
        last_rekey: now,
        client_nonce,
        server_nonce,
        prev_nonce: nonce_from_bytes(prev),
        pending_nonce: nonce_from_bytes(pending),
        client_id,
        token_id,
        subscription_expires_at,
        plan,
        device_limit,
        max_mbps,
        rate: RateLimit::new_at(max_mbps, now),
    };
    proof {
        lemma_bytes_of_value(data@.subrange(at + 20, at + 24));
        lemma_bytes_of_value(data@.subrange(at + 24, at + 32));
        lemma_bytes_of_value(data@.subrange(at + 192, at + 200));
        lemma_bytes_of_value(data@.subrange(at + 202, at + 206));
        assert(record_wire(session) =~= record);
    }
    Some(session)
}

impl SessionManager {
    /// The table as it goes to disk, in some order.
    pub fn encode_store(&self) -> (out: Bytes)
        requires
            self.wf(),
            STORE_HEADER_SIZE + self@.len() * STORE_RECORD_SIZE <= isize::MAX,
        ensures
            exists|list: Seq<Session>|
                distinct(list) && table(list) == self@ && bytes_view(out) == #[trigger] store_wire(list),
    {
        let ghost list = self.sessions@;
        proof {
            self.lemma_parts();
            lemma_table(list);
            lemma_be_bytes_len(list.len(), 4);
            lemma_low_u32(self.sessions.len());
        }
        let count: usize = self.sessions.len();
        let mut buffer = new_buffer(STORE_HEADER_SIZE + count * STORE_RECORD_SIZE);
        let magic = STORE_MAGIC;
        put_slice(&mut buffer, &magic);
        put_u8(&mut buffer, STORE_VERSION);
        put_u32(&mut buffer, count as u32);
        let ghost head = bytes_mut_view(buffer);
        assert(head =~= STORE_MAGIC@ + seq![STORE_VERSION] + be_bytes(list.len(), 4));
        let mut i: usize = 0;
        assert(head + records_wire(list.take(0)) =~= head);
        while i < count
            invariant
                list == self.sessions@,
                count == list.len(),
                i <= count,
                head.len() == STORE_HEADER_SIZE,
                STORE_HEADER_SIZE + count * STORE_RECORD_SIZE <= isize::MAX,
                bytes_mut_view(buffer) == head + records_wire(list.take(i as int)),
            decreases count - i,
        {
            proof {
                lemma_records_len(list.take(i as int));
                assert(list.take(i + 1).drop_last() =~= list.take(i as int));
                assert(list.take(i + 1).last() == list[i as int]);
                assert(i * STORE_RECORD_SIZE + STORE_RECORD_SIZE <= count * STORE_RECORD_SIZE) by (nonlinear_arith)
                    requires
                        i < count,
                        STORE_RECORD_SIZE == 206,
                ;
            }
            put_record(&mut buffer, &self.sessions[i]);
            i = i + 1;
            assert(bytes_mut_view(buffer) =~= head + records_wire(list.take(i as int)));
        }
        assert(list.take(i as int) =~= list);
        let out = freeze(buffer);
        assert(bytes_view(out) =~= store_wire(list));
        out
    }

    /// The table that a store holds. Where an id stands twice, the later
    /// record counts.
    pub fn decode_store(data: &[u8], now: u64) -> (result: Result<Self, StoreError>)
        ensures
            match result {
                Ok(manager) => {
                    &&& store_fault(data@) is None
                    &&& manager.wf()
                    &&& !manager.dirty()
                    &&& exists|list: Seq<Session>| #[trigger] stored(data@, list, now) && manager@ == table(list)
                },
                Err(error) => store_fault(data@) == Some(error),
            },
    {
        if data.len() < STORE_HEADER_SIZE {
            return Err(StoreError::TooShort);
        }
        let head: [u8; 4] = array_at(data, 0);
        assert(head@ =~= data@.take(4));
        let magic = STORE_MAGIC;
        if !same_bytes(&head, &magic) {
            return Err(StoreError::BadMagic);
        }
        if data[4] != STORE_VERSION {
            return Err(StoreError::UnsupportedVersion);
        }
        let count: u32 = read_u32(data, 5);
        if (data.len() - STORE_HEADER_SIZE) as u64 != count as u64 * 206 {
            return Err(StoreError::Truncated);
        }
        let mut manager = SessionManager::new();
        let ghost mut list = Seq::<Session>::empty();
        let mut at: usize = STORE_HEADER_SIZE;
        let mut k: u32 = 0;
        proof {
            assert(table(list) =~= Map::empty());
            assert(data@.subrange(9, at as int) =~= records_wire(list));
        }
        while k < count
            invariant
                k <= count,
                data@.len() == data.len(),
                data@.len() - STORE_HEADER_SIZE == count * STORE_RECORD_SIZE,
                count == be_value(data@.subrange(5, 9)),
                data@.len() >= 9,
                data@.take(4) == STORE_MAGIC@,
                data@[4] == STORE_VERSION,
                at == STORE_HEADER_SIZE + k * STORE_RECORD_SIZE,
                list.len() == k,
                records_wire(list) == data@.subrange(9, at as int),
                forall|j: int| 0 <= j < list.len() ==> restored(#[trigger] list[j], now),
                forall|j: int| 0 <= j < k ==> !#[trigger] bad_plan(data@, j),
                manager.wf(),
                !manager.dirty(),
                manager@ == table(list),
            decreases count - k,
        {
            proof {
                assert((k + 1) * STORE_RECORD_SIZE <= count * STORE_RECORD_SIZE) by (nonlinear_arith)
                    requires
                        k < count,
                        STORE_RECORD_SIZE == 206,
                ;
                assert(data@.subrange(at as int, at + STORE_RECORD_SIZE) =~= record_at(data@, k as int));
            }
            match read_record(data, at, now) {
                Some(session) => {
                    manager.insert(session);
                    proof {
                        assert(!bad_plan(data@, k as int));
                        let longer = list.push(session);
                        assert(longer.drop_last() =~= list);
                        assert(data@.subrange(9, at + STORE_RECORD_SIZE) =~= data@.subrange(9, at as int)
                            + data@.subrange(at as int, at + STORE_RECORD_SIZE));
                        list = longer;
                    }
                },
                None => {
                    assert(bad_plan(data@, k as int));
                    return Err(StoreError::BadPlan);
                },
            }
            at = at + STORE_RECORD_SIZE;
            k = k + 1;
        }
        proof {
            lemma_bytes_of_value(data@.subrange(5, 9));
            assert(store_wire(list) =~= data@);
            assert(stored(data@, list, now));
        }
        Ok(manager)
    }
}

/// Whether two sessions are written alike.
pub open spec fn same_record(a: Session, b: Session) -> bool {
    &&& a.id == b.id
    &&& a.ipv4 == b.ipv4
    &&& a.capabilities == b.capabilities
    &&& a.last_sequence == b.last_sequence
    &&& a.client_nonce == b.client_nonce
    &&& a.server_nonce == b.server_nonce
    &&& nonce_wire(a.prev_nonce) == nonce_wire(b.prev_nonce)
    &&& nonce_wire(a.pending_nonce) == nonce_wire(b.pending_nonce)
    &&& a.client_id == b.client_id
    &&& a.token_id == b.token_id
    &&& a.subscription_expires_at == b.subscription_expires_at
    &&& a.plan == b.plan
    &&& a.device_limit == b.device_limit
    &&& a.max_mbps == b.max_mbps
}

/// A record decides everything that is kept of a session.
pub proof fn law_record_roundtrip(a: Session, b: Session)
    requires
        record_wire(a) == record_wire(b),
    ensures
        same_record(a, b),
{
    lemma_record(a);
    lemma_record(b);
    lemma_be_range();
    lemma_value_of_bytes(a.capabilities as nat, 4);
    lemma_value_of_bytes(b.capabilities as nat, 4);
    lemma_value_of_bytes(a.last_sequence as nat, 8);
    lemma_value_of_bytes(b.last_sequence as nat, 8);
    lemma_value_of_bytes(a.subscription_expires_at as nat, 8);
    lemma_value_of_bytes(b.subscription_expires_at as nat, 8);
    lemma_value_of_bytes(a.max_mbps as nat, 4);
    lemma_value_of_bytes(b.max_mbps as nat, 4);
    assert(a.id =~= b.id);
    assert(a.ipv4 =~= b.ipv4);
    assert(a.client_nonce =~= b.client_nonce);
    assert(a.server_nonce =~= b.server_nonce);
    assert(a.client_id =~= b.client_id);
    assert(a.token_id =~= b.token_id);
}

/// What was written is read back: a store that was written from `list` has no
/// fault, and whatever it is read as has the same records in the same order.
pub proof fn law_store_roundtrip(list: Seq<Session>, read: Seq<Session>, now: u64)
    requires
        list.len() < 0x1_0000_0000,
        read.len() < 0x1_0000_0000,
        stored(store_wire(list), read, now),
    ensures
        store_fault(store_wire(list)) is None,
        read.len() == list.len(),
        forall|k: int| 0 <= k < list.len() ==> same_record(list[k], #[trigger] read[k]),
{
    lemma_be_range();
    lemma_store_parts(list);
    lemma_store_parts(read);
    lemma_value_of_bytes(list.len(), 4);
    lemma_value_of_bytes(read.len(), 4);
    let data = store_wire(list);
    assert forall|k: int| 0 <= k < list.len() implies same_record(list[k], #[trigger] read[k]) by {
        lemma_record_in(list, k);
        lemma_record_in(read, k);
        law_record_roundtrip(list[k], read[k]);
    }
    assert forall|k: int| 0 <= k < list.len() implies !#[trigger] bad_plan(data, k) by {
        lemma_record_in(list, k);
        lemma_record(list[k]);
        assert(record_at(data, k) =~= data.skip(9).subrange(k * STORE_RECORD_SIZE, (k + 1) * STORE_RECORD_SIZE));
    }
}

proof fn lemma_store_parts(list: Seq<Session>)
    ensures
        store_wire(list).len() == STORE_HEADER_SIZE + list.len() * STORE_RECORD_SIZE,
        store_wire(list).take(4) == STORE_MAGIC@,
        store_wire(list)[4] == STORE_VERSION,
        store_wire(list).subrange(5, 9) == be_bytes(list.len(), 4),
        store_wire(list).skip(9) == records_wire(list),
{
    lemma_records_len(list);
    lemma_be_bytes_len(list.len(), 4);
    assert(store_wire(list).take(4) =~= STORE_MAGIC@);
    assert(store_wire(list).subrange(5, 9) =~= be_bytes(list.len(), 4));
    assert(store_wire(list).skip(9) =~= records_wire(list));
}

/// A session can be resumed after a restart with every token with which it
/// could be resumed before (zeros aside, which stand for no token), and keeps
/// its address.
pub proof fn law_store_keeps_resume_tokens(
    list: Seq<Session>,
    read: Seq<Session>,
    now: u64,
    id: SessionId,
    token: [u8; SERVER_NONCE_SIZE],
)
    requires
        list.len() < 0x1_0000_0000,
        read.len() < 0x1_0000_0000,
        distinct(list),
        stored(store_wire(list), read, now),
        table(list).contains_key(id),
        table(list)[id].has_token(token),
        token@ != no_nonce(),
    ensures
        table(read).contains_key(id),
        table(read)[id].has_token(token),
        table(read)[id].ipv4 == table(list)[id].ipv4,
{
    law_store_roundtrip(list, read, now);
    assert forall|i: int, j: int| 0 <= i < j < read.len() implies (#[trigger] read[i]).id != (#[trigger] read[j]).id by {
        assert(list[i].id != list[j].id);
    }
    lemma_table(list);
    lemma_table(read);
    let k = choose|k: int| 0 <= k < list.len() && (#[trigger] list[k]).id == id;
    let a = list[k];
    let b = read[k];
    assert(same_record(a, b));
    assert(listed(read, id)) by {
        assert(read[k].id == id);
    }
    assert(table(list)[list[k].id] == list[k]);
    assert(table(read)[read[k].id] == read[k]);
    if a.prev_nonce == Some(token) {
        assert(b.prev_nonce is Some);
        assert(b.prev_nonce->0 =~= token);
    }
    if a.pending_nonce == Some(token) {
        assert(b.pending_nonce is Some);
        assert(b.pending_nonce->0 =~= token);
    }
}

/// A store begins with `PAYS`, version 1 and the number of its records, and
/// each record has 206 bytes. Any other bytes are refused, each for its
/// fault.
pub proof fn law_store_layout(data: &[u8], now: u64, result: Result<SessionManager, StoreError>)
    requires
        call_ensures(SessionManager::decode_store, (data, now), result),
    ensures
        ({
            let d = data@;
            let magic = d.len() >= 9 && d[0] == 80 && d[1] == 65 && d[2] == 89 && d[3] == 83;
            let count = be_value(d.subrange(5, 9));
            &&& d.len() < 9 ==> (result matches Err(StoreError::TooShort))
            &&& d.len() >= 9 && !magic ==> (result matches Err(StoreError::BadMagic))
            &&& magic && d[4] != 1 ==> (result matches Err(StoreError::UnsupportedVersion))
            &&& magic && d[4] == 1 && d.len() != 9 + count * 206 ==> (result matches Err(StoreError::Truncated))
            &&& magic && d[4] == 1 && d.len() == 9 + count * 206 ==> (result is Ok || (result matches Err(
                StoreError::BadPlan,
            )))
            &&& result is Ok ==> magic && d[4] == 1 && d.len() == 9 + count * 206 && forall|k: int|
                0 <= k < count ==> 1 <= #[trigger] d[9 + k * 206 + 200] <= 3
        }),
{
    let d = data@;
    let magic = STORE_MAGIC;
    assert(magic@ =~= seq![80u8, 65, 89, 83]);
    if d.len() >= 9 {
        let four = d.take(4);
        assert(four[0] == d[0] && four[1] == d[1] && four[2] == d[2] && four[3] == d[3]);
        assert(d[0] == 80 && d[1] == 65 && d[2] == 89 && d[3] == 83 ==> four =~= magic@);
    }
    if result is Ok {
        let count = be_value(d.subrange(5, 9));
        assert forall|k: int| 0 <= k < count implies 1 <= #[trigger] d[9 + k * 206 + 200] <= 3 by {
            assert(!bad_plan(d, k));
            assert(9 + (k + 1) * 206 <= d.len()) by (nonlinear_arith)
                requires
                    0 <= k < count,
                    d.len() == 9 + count * 206,
            ;
            assert(record_at(d, k)[200] == d[9 + k * 206 + 200]);
        }
    }
}

/// After a restart every session is there again, with its address, its
/// subscription, its limits, its tokens and its count of frames: away from
/// any link, silent since the restart, with a full bucket.
pub proof fn law_restart_keeps_sessions(
    m: &SessionManager,
    out: Bytes,
    data: &[u8],
    now: u64,
    read: SessionManager,
    id: SessionId,
)
    requires
        call_ensures(SessionManager::encode_store, (m,), out),
        data@ == bytes_view(out),
        call_ensures(SessionManager::decode_store, (data, now), Ok::<SessionManager, StoreError>(read)),
        m@.contains_key(id),
        m@.len() < 0x100_0000,
    ensures
        read@.contains_key(id),
        !read.dirty(),
        ({
            let a = m@[id];
            let b = read@[id];
            let zeros = Seq::new(32, |i: int| 0u8);
            &&& b.id == a.id
            &&& b.ipv4 == a.ipv4
            &&& b.capabilities == a.capabilities
            &&& b.last_sequence == a.last_sequence
            &&& b.client_nonce == a.client_nonce
            &&& b.server_nonce == a.server_nonce
            &&& a.prev_nonce matches Some(nonce) ==> (nonce@ != zeros ==> b.prev_nonce == Some(nonce))
            &&& a.pending_nonce matches Some(nonce) ==> (nonce@ != zeros ==> b.pending_nonce == Some(nonce))
            &&& a.prev_nonce is None ==> b.prev_nonce is None
            &&& a.pending_nonce is None ==> b.pending_nonce is None
            &&& b.client_id == a.client_id
            &&& b.token_id == a.token_id
            &&& b.subscription_expires_at == a.subscription_expires_at
            &&& b.plan == a.plan
            &&& b.device_limit == a.device_limit
            &&& b.max_mbps == a.max_mbps
            &&& b.link == ClientLink::Detached
            &&& b.last_activity == now && b.created_at == now && b.last_rekey == now
            &&& b.rate.max_mbps == a.max_mbps && b.rate.last_refill_ms == now
            &&& a.max_mbps > 0 ==> b.rate.tokens == a.max_mbps * 125_000
        }),
        forall|other: SessionId| #[trigger] read@.contains_key(other) ==> m@.contains_key(other),
{
    let list = choose|list: Seq<Session>|
        distinct(list) && table(list) == m@ && bytes_view(out) == #[trigger] store_wire(list);
    let back = choose|back: Seq<Session>| #[trigger] stored(data@, back, now) && read@ == table(back);
    lemma_table(list);
    lemma_store_parts(list);
    lemma_store_parts(back);
    lemma_be_range();
    assert(back.len() == list.len()) by (nonlinear_arith)
        requires
            9 + list.len() * 206 == 9 + back.len() * 206,
    ;
    law_store_roundtrip(list, back, now);
    assert forall|i: int, j: int| 0 <= i < j < back.len() implies (#[trigger] back[i]).id != (#[trigger] back[j]).id by {
        assert(list[i].id != list[j].id);
        assert(same_record(list[i], back[i]) && same_record(list[j], back[j]));
    }
    lemma_table(back);
    let k = choose|k: int| 0 <= k < list.len() && (#[trigger] list[k]).id == id;
    let a = list[k];
    let b = back[k];
    assert(same_record(a, b));
    assert(restored(b, now));
    assert(listed(back, id)) by {
        assert(back[k].id == id);
    }
    assert(table(list)[list[k].id] == list[k]);
    assert(table(back)[back[k].id] == back[k]);
    if let Some(nonce) = a.prev_nonce {
        if nonce@ != no_nonce() {
            assert(b.prev_nonce is Some);
            assert(b.prev_nonce->0 =~= nonce);
        }
    }
    if let Some(nonce) = a.pending_nonce {
        if nonce@ != no_nonce() {
            assert(b.pending_nonce is Some);
            assert(b.pending_nonce->0 =~= nonce);
        }
    }
    assert forall|other: SessionId| #[trigger] read@.contains_key(other) implies m@.contains_key(other) by {
        let j = choose|j: int| 0 <= j < back.len() && (#[trigger] back[j]).id == other;
        assert(same_record(list[j], back[j]));
        assert(list[j].id == other);
        assert(listed(list, other));
    }
}

/// What is written can be read: a store that was encoded is never refused.
pub proof fn law_store_is_read(
    m: &SessionManager,
    out: Bytes,
    data: &[u8],
    now: u64,
    result: Result<SessionManager, StoreError>,
)
    requires
        call_ensures(SessionManager::encode_store, (m,), out),
        data@ == bytes_view(out),
        call_ensures(SessionManager::decode_store, (data, now), result),
        m@.len() < 0x100_0000,
    ensures
        result is Ok,
{
    let list = choose|list: Seq<Session>|
        distinct(list) && table(list) == m@ && bytes_view(out) == #[trigger] store_wire(list);
    lemma_table(list);
    lemma_be_range();
    lemma_store_parts(list);
    lemma_value_of_bytes(list.len(), 4);
    assert forall|k: int| 0 <= k < list.len() implies !#[trigger] bad_plan(data@, k) by {
        lemma_record_in(list, k);
        lemma_record(list[k]);
        assert(record_at(data@, k) =~= data@.skip(9).subrange(k * STORE_RECORD_SIZE, (k + 1) * STORE_RECORD_SIZE));
    }
}

/// Where each part of a session stands in its record.
pub proof fn law_record_layout(s: Session)
    ensures
        ({
            let r = record_wire(s);
            let zeros = Seq::new(32, |i: int| 0u8);
            &&& r.len() == 206
            &&& r.subrange(0, 16) == s.id@
            &&& r.subrange(16, 20) == s.ipv4@
            &&& r.subrange(20, 24) == be_bytes(s.capabilities as nat, 4)
            &&& r.subrange(24, 32) == be_bytes(s.last_sequence as nat, 8)
            &&& r.subrange(32, 64) == s.client_nonce@
            &&& r.subrange(64, 96) == s.server_nonce@
            &&& r.subrange(96, 128) == (match s.prev_nonce {
                Some(nonce) => nonce@,
                None => zeros,
            })
            &&& r.subrange(128, 160) == (match s.pending_nonce {
                Some(nonce) => nonce@,
                None => zeros,
            })
            &&& r.subrange(160, 176) == s.client_id@
            &&& r.subrange(176, 192) == s.token_id@
            &&& r.subrange(192, 200) == be_bytes(s.subscription_expires_at as nat, 8)
            &&& r[200] == (match s.plan {
                SubscriptionPlan::Basic => 1u8,
                SubscriptionPlan::Pro => 2,
                SubscriptionPlan::Unlimited => 3,
            })
            &&& r[201] == s.device_limit
            &&& r.subrange(202, 206) == be_bytes(s.max_mbps as nat, 4)
        }),
{
    lemma_record(s);
}

} // verus!
