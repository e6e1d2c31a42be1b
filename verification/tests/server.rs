use payphone::auth::{SubscriptionClaims, SubscriptionPlan, CLIENT_ID_SIZE, TOKEN_ID_SIZE};
use payphone::net::PeerAddr;
use payphone::server::dns::{default_upstream, fallback_upstream, looks_like_query, on_reply, DnsPhase, DnsStep};
use payphone::server::rate::RateLimit;
use payphone::server::session::{
    accept_sequence, ClientLink, CreateSessionError, Fresh, SessionManager, REKEY_AFTER_MS, SEQUENCE_REORDER_WINDOW,
    SESSION_TIMEOUT_MS,
};
use payphone::server::store::{StoreError, STORE_HEADER_SIZE, STORE_RECORD_SIZE};

const NOW: u64 = 1_700_000_000_000;

fn claims(client_id: u8, device_limit: u8, max_mbps: u32) -> SubscriptionClaims {
    SubscriptionClaims {
        key_id: 1,
        token_id: [client_id; TOKEN_ID_SIZE],
        client_id: [client_id; CLIENT_ID_SIZE],
        issued_at: 1_000,
        not_before: 1_000,
        expires_at: 9_999_999_999,
        plan: SubscriptionPlan::Basic,
        device_limit,
        max_mbps,
    }
}

fn dummy_addr() -> PeerAddr {
    PeerAddr::V4 { ip: 0x7f00_0001, port: 1 }
}

#[test]
fn rejects_too_short() {
    assert!(!looks_like_query(&[0; 8]));
}

#[test]
fn accepts_query_header() {
    let mut query = [0u8; 12];
    query[2] = 0x01;
    assert!(looks_like_query(&query));
}

#[test]
fn rejects_response_header() {
    let mut response = [0u8; 12];
    response[2] = 0x80;
    assert!(!looks_like_query(&response));
}

#[test]
fn dns_falls_back_once() {
    assert_eq!(default_upstream(), PeerAddr::V4 { ip: 0x0101_0101, port: 53 });
    assert_eq!(fallback_upstream(), PeerAddr::V4 { ip: 0x0808_0808, port: 53 });
    assert!(matches!(on_reply(DnsPhase::Primary, None), DnsStep::Ask(address) if address == fallback_upstream()));
    assert!(matches!(on_reply(DnsPhase::Fallback, None), DnsStep::GiveUp));
    let reply = vec![1u8; 12];
    assert!(matches!(on_reply(DnsPhase::Fallback, Some(vec![1u8, 2, 3])), DnsStep::GiveUp));
    assert!(matches!(on_reply(DnsPhase::Primary, Some(reply.clone())), DnsStep::Answer(bytes) if bytes == reply));
}

#[test]
fn allocates_distinct_vpn_addresses() {
    let mut manager = SessionManager::new();
    let first = manager
        .create_session(
            dummy_addr(),
            ClientLink::Detached,
            1,
            [1u8; 32],
            0,
            1280,
            &claims(1, 5, 0),
            NOW,
            &Fresh::random(),
        )
        .unwrap()
        .0;
    let second = manager
        .create_session(
            dummy_addr(),
            ClientLink::Detached,
            1,
            [2u8; 32],
            0,
            1280,
            &claims(2, 5, 0),
            NOW,
            &Fresh::random(),
        )
        .unwrap()
        .0;
    assert_eq!(first.assigned_ipv4, [10, 77, 0, 2]);
    assert_eq!(second.assigned_ipv4, [10, 77, 0, 3]);
}

#[test]
fn device_limit_kicks_oldest() {
    let mut manager = SessionManager::new();
    let one = claims(7, 1, 100);
    let first = manager
        .create_session(dummy_addr(), ClientLink::Detached, 1, [1u8; 32], 0, 1280, &one, NOW, &Fresh::random())
        .unwrap()
        .0;
    let (second, kicked) = manager
        .create_session(dummy_addr(), ClientLink::Detached, 1, [2u8; 32], 0, 1280, &one, NOW, &Fresh::random())
        .unwrap();
    assert_eq!(kicked.len(), 1);
    assert_eq!(kicked[0].id, first.session_id);
    assert_eq!(manager.len(), 1);
    assert_eq!(manager.get(&second.session_id).unwrap().ipv4, second.assigned_ipv4);
}

#[test]
fn resume_accepts_pending_nonce() {
    let mut manager = SessionManager::new();
    let all_good = manager
        .create_session(
            dummy_addr(),
            ClientLink::Detached,
            1,
            [1u8; 32],
            0,
            1280,
            &claims(1, 5, 0),
            NOW,
            &Fresh::random(),
        )
        .unwrap()
        .0;
    let pending = manager.rekey_offer(&all_good.session_id, dummy_addr(), &Fresh::random().nonce).unwrap();
    let resumed = manager
        .resume_session(&all_good.session_id, &pending, dummy_addr(), ClientLink::Detached, 2, 1280, NOW)
        .unwrap();
    assert_eq!(resumed.assigned_ipv4, all_good.assigned_ipv4);
}

#[test]
fn persist_roundtrip_keeps_resume_token() {
    let mut manager = SessionManager::new();
    let all_good = manager
        .create_session(
            dummy_addr(),
            ClientLink::Detached,
            7,
            [9u8; 32],
            4,
            1280,
            &claims(3, 2, 50),
            NOW,
            &Fresh::random(),
        )
        .unwrap()
        .0;
    assert!(manager.take_unsaved());
    let stored = manager.encode_store();
    assert_eq!(stored.len(), STORE_HEADER_SIZE + STORE_RECORD_SIZE);

    let mut loaded = SessionManager::decode_store(&stored, NOW).unwrap();
    assert_eq!(loaded.len(), 1);
    let resumed = loaded
        .resume_session(
            &all_good.session_id,
            &all_good.server_nonce,
            dummy_addr(),
            ClientLink::Detached,
            5,
            1280,
            NOW,
        )
        .unwrap();
    assert_eq!(resumed.assigned_ipv4, all_good.assigned_ipv4);
}

#[test]
fn rate_limit_blocks_after_burst() {
    let mut limit = RateLimit::new(1);
    assert!(limit.allow(125_000));
    assert!(!limit.allow(1));
}

#[test]
fn unlimited_rate_never_blocks() {
    let mut limit = RateLimit::new(0);
    assert!(limit.allow(1_000_000_000));
}

#[test]
fn accept_sequence_allows_reorder_but_drops_old_replays() {
    let mut last = 0u64;
    assert!(accept_sequence(&mut last, 2000));
    assert_eq!(last, 2000);
    assert!(accept_sequence(&mut last, 1990));
    assert_eq!(last, 2000);
    assert!(accept_sequence(&mut last, 2000 - SEQUENCE_REORDER_WINDOW + 1));
    assert!(!accept_sequence(&mut last, 2000 - SEQUENCE_REORDER_WINDOW));
}

#[test]
fn rate_limit_refills_with_time() {
    let mut limit = RateLimit::new_at(8, 1_000);
    assert!(limit.allow_at(1_000_000, 1_000));
    assert!(!limit.allow_at(1, 1_000));
    assert!(limit.allow_at(500_000, 1_500));
    assert!(!limit.allow_at(1, 1_500));
}

#[test]
fn all_addresses_can_be_given_out() {
    let mut manager = SessionManager::new();
    let mut given = Vec::new();
    for i in 0..253u32 {
        let claims = claims(i as u8, 255, 0);
        let good = manager
            .create_session(dummy_addr(), ClientLink::Detached, 1, [1u8; 32], 0, 1280, &claims, NOW, &Fresh::random())
            .unwrap()
            .0;
        assert!(!given.contains(&good.assigned_ipv4));
        given.push(good.assigned_ipv4);
    }
    let claims = claims(254, 255, 0);
    let full =
        manager.create_session(dummy_addr(), ClientLink::Detached, 1, [1u8; 32], 0, 1280, &claims, NOW, &Fresh::random());
    assert_eq!(full.unwrap_err(), CreateSessionError::NoAddresses);
}

#[test]
fn rekey_keeps_the_old_token_until_it_is_confirmed() {
    let mut manager = SessionManager::new();
    let good = manager
        .create_session(
            dummy_addr(),
            ClientLink::Quic { stable_id: 3 },
            1,
            [1u8; 32],
            0,
            1280,
            &claims(1, 5, 0),
            NOW,
            &Fresh::random(),
        )
        .unwrap()
        .0;
    let id = good.session_id;
    let elsewhere = PeerAddr::V4 { ip: 0x0a00_0001, port: 9 };
    let fresh = [7u8; 32];
    assert_eq!(manager.rekey_offer(&id, elsewhere, &fresh), None);
    assert_eq!(manager.rekey_offer(&id, dummy_addr(), &fresh), Some(fresh));
    assert_eq!(manager.rekey_offer(&id, dummy_addr(), &[8u8; 32]), Some(fresh));
    assert_eq!(manager.rekey_confirm(&id, &fresh, dummy_addr(), NOW + 1), Some(fresh));
    let session = manager.get(&id).unwrap();
    assert_eq!(session.server_nonce, fresh);
    assert_eq!(session.prev_nonce, Some(good.server_nonce));
    assert_eq!(session.pending_nonce, None);
    assert!(manager
        .resume_session(&id, &good.server_nonce, elsewhere, ClientLink::Stream { id: 4 }, 9, 1280, NOW + 2)
        .is_some());
    assert!(manager
        .resume_session(&id, &[0u8; 32], elsewhere, ClientLink::Stream { id: 4 }, 9, 1280, NOW + 2)
        .is_none());
}

#[test]
fn a_ping_after_an_hour_brings_a_new_token() {
    let mut manager = SessionManager::new();
    let good = manager
        .create_session(
            dummy_addr(),
            ClientLink::Detached,
            1,
            [1u8; 32],
            0,
            1280,
            &claims(1, 5, 0),
            NOW,
            &Fresh::random(),
        )
        .unwrap()
        .0;
    let id = good.session_id;
    assert_eq!(manager.touch_session(&id, dummy_addr(), 1, NOW + 5, &[5u8; 32]), Some(None));
    let late = NOW + REKEY_AFTER_MS;
    assert_eq!(manager.touch_session(&id, dummy_addr(), 2, late, &[5u8; 32]), Some(Some([5u8; 32])));
    assert_eq!(manager.touch_session(&[0u8; 16], dummy_addr(), 2, late, &[5u8; 32]), None);
}

#[test]
fn silent_sessions_are_removed() {
    let mut manager = SessionManager::new();
    let good = manager
        .create_session(
            dummy_addr(),
            ClientLink::Quic { stable_id: 3 },
            1,
            [1u8; 32],
            0,
            1280,
            &claims(1, 5, 0),
            NOW,
            &Fresh::random(),
        )
        .unwrap()
        .0;
    assert_eq!(manager.find_by_ipv4([10, 77, 0, 2]).map(|s| s.id), Some(good.session_id));
    assert_eq!(manager.detach_by_stable_id(4), 0);
    assert_eq!(manager.detach_by_stable_id(3), 1);
    assert!(!manager.get(&good.session_id).unwrap().link.is_live());
    assert!(manager.find_by_ipv4([10, 77, 0, 2]).is_none());
    assert_eq!(manager.remove_expired(NOW + SESSION_TIMEOUT_MS - 1), 0);
    assert_eq!(manager.remove_expired(NOW + SESSION_TIMEOUT_MS + 1), 1);
    assert!(manager.is_empty());
}

#[test]
fn store_faults_are_told_apart() {
    let mut manager = SessionManager::new();
    manager
        .create_session(
            dummy_addr(),
            ClientLink::Detached,
            1,
            [1u8; 32],
            0,
            1280,
            &claims(1, 5, 0),
            NOW,
            &Fresh::random(),
        )
        .unwrap();
    let stored = manager.encode_store().to_vec();
    assert_eq!(SessionManager::decode_store(&stored[..8], NOW).err(), Some(StoreError::TooShort));
    let mut magic = stored.clone();
    magic[0] = 0;
    assert_eq!(SessionManager::decode_store(&magic, NOW).err(), Some(StoreError::BadMagic));
    let mut version = stored.clone();
    version[4] = 9;
    assert_eq!(SessionManager::decode_store(&version, NOW).err(), Some(StoreError::UnsupportedVersion));
    assert_eq!(SessionManager::decode_store(&stored[..stored.len() - 1], NOW).err(), Some(StoreError::Truncated));
}
