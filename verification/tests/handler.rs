use bytes::Bytes;
use payphone::auth::{
    generate_signing_key, FileRevocationStore, MemoryRevocationStore, SigningKey, SubscriptionClaims,
    SubscriptionPlan, SubscriptionToken, SubscriptionVerifier, VerificationKeyRing,
};
use payphone::client::session::{Handshake, Next};
use payphone::client::session_file::SavedSession;
use payphone::client::tunnel::{Tunnel, TunnelStep};
use payphone::issuer::{issue_with, KEY_ID};
use payphone::net::PeerAddr;
use payphone::protocol::access_denied_dude::{AccessDeniedDude, DenyReason};
use payphone::protocol::close::{Close, CloseReason};
use payphone::protocol::ping::Ping;
use payphone::protocol::pong::Pong;
use payphone::protocol::rekey::Rekey;
use payphone::protocol::{Frame, FrameType, PROTOCOL_VERSION};
use payphone::server::handler::{handle_frame, handle_packet, route_packet, PayphoneVerifier, ServerAction};
use payphone::server::session::{ClientLink, Fresh, SessionManager, REKEY_AFTER_MS};

const NOW: u64 = 10_000_000;
const UNIX: u64 = 1_700_000_000;
const LINK: ClientLink = ClientLink::Quic { stable_id: 4 };
const HOME: PeerAddr = PeerAddr::V4 { ip: 0x7f00_0001, port: 1 };
const AWAY: PeerAddr = PeerAddr::V4 { ip: 0x7f00_0002, port: 2 };

struct Server {
    manager: SessionManager,
    verifying: SubscriptionVerifier<MemoryRevocationStore>,
    key: SigningKey,
}

impl Server {
    fn new() -> Server {
        let key = generate_signing_key().unwrap();
        let mut ring = VerificationKeyRing::new();
        ring.insert(KEY_ID, key.verifying_key());
        Server {
            manager: SessionManager::new(),
            verifying: SubscriptionVerifier::new(ring, MemoryRevocationStore::new()),
            key,
        }
    }

    fn token(&self, client: u8, issued: u64, plan: SubscriptionPlan) -> SubscriptionToken {
        issue_with(&self.key, issued, 1, plan, [client; 16], [client; 16]).unwrap()
    }

    fn hear(&mut self, address: PeerAddr, frame: Frame, now: u64, fresh: &Fresh) -> Vec<ServerAction> {
        handle_frame(&mut self.manager, &self.verifying, LINK, address, frame, now, UNIX, fresh)
    }

    /// Greets with a token and returns what comes back, and the handshake.
    fn greet(&mut self, token: &SubscriptionToken, fresh: &Fresh) -> (Vec<ServerAction>, Handshake) {
        let (mut handshake, _) = Handshake::begin(None);
        let step = handshake.ask(token.encode().to_vec());
        let asked = Frame::decode(step.send.unwrap()).unwrap();
        (self.hear(HOME, asked, NOW, fresh), handshake)
    }

    /// A session of its own, and its resume token.
    fn open(&mut self, client: u8) -> ([u8; 16], [u8; 4], SavedSession) {
        let token = self.token(client, UNIX, SubscriptionPlan::Pro);
        let (actions, mut handshake) = self.greet(&token, &fresh(client));
        let step = handshake.on_reply(Some(reply(&actions[actions.len() - 1])));
        let saved = step.save.unwrap();
        let session = self.manager.get(&saved.session_id).unwrap();
        (session.id, session.ipv4, saved)
    }
}

fn fresh(n: u8) -> Fresh {
    Fresh { session_id: [n; 16], nonce: [n.wrapping_add(100); 32] }
}

fn reply(action: &ServerAction) -> Frame {
    match action {
        ServerAction::Send { link, bytes } => {
            assert_eq!(*link, LINK);
            Frame::decode(bytes.clone()).unwrap()
        }
        ServerAction::WriteTun { .. } => panic!("a packet where a frame should be"),
    }
}

fn plain(frame_type: FrameType, sequence: u64, payload: Bytes) -> Frame {
    Frame { version: PROTOCOL_VERSION, frame_type, flags: 0, sequence, payload }
}

fn packet(source: [u8; 4], destination: [u8; 4]) -> Vec<u8> {
    let mut packet = vec![0u8; 24];
    packet[0] = 0x45;
    packet[12..16].copy_from_slice(&source);
    packet[16..20].copy_from_slice(&destination);
    packet
}

fn denial(actions: &[ServerAction]) -> AccessDeniedDude {
    assert_eq!(actions.len(), 1);
    let frame = reply(&actions[0]);
    assert_eq!(frame.frame_type, FrameType::AccessDeniedDude);
    AccessDeniedDude::decode(frame.payload).unwrap()
}

#[test]
fn a_refused_token_is_answered_and_opens_nothing() {
    let mut server = Server::new();
    let good = server.token(1, UNIX, SubscriptionPlan::Basic);
    let old = server.token(2, UNIX - 2 * 86_400, SubscriptionPlan::Basic);
    let early = server.token(3, UNIX + 100_000, SubscriptionPlan::Basic);
    let foreign = Server::new().token(4, UNIX, SubscriptionPlan::Basic);
    let mut other_key = good.claims;
    other_key.key_id = 9;
    let other_key = SubscriptionToken::sign(other_key, &server.key);
    server.verifying.revocations.revoke([5; 16]);
    let revoked = server.token(5, UNIX, SubscriptionPlan::Basic);
    let mut cases = vec![
        (old, DenyReason::SubscriptionExpired, UNIX - 86_400),
        (foreign, DenyReason::InvalidToken, 0),
        (other_key, DenyReason::UnknownSigningKey, 0),
        (revoked, DenyReason::TokenRevoked, 0),
        (early, DenyReason::InvalidToken, 0),
    ];
    let mut late: SubscriptionClaims = good.claims;
    late.not_before = UNIX + 100_000;
    late.expires_at = UNIX + 200_000;
    cases.push((SubscriptionToken::sign(late, &server.key), DenyReason::SubscriptionNotActive, 0));
    for (token, reason, expires_at) in cases {
        let (actions, _) = server.greet(&token, &fresh(1));
        let message = denial(&actions);
        assert_eq!((message.reason, message.expires_at), (reason, expires_at));
        assert!(server.manager.is_empty());
    }
    let (mut handshake, _) = Handshake::begin(None);
    let step = handshake.ask(vec![1, 2, 3]);
    let actions = server.hear(HOME, Frame::decode(step.send.unwrap()).unwrap(), NOW, &fresh(1));
    assert_eq!(denial(&actions).reason, DenyReason::InvalidToken);
}

#[test]
fn a_good_token_opens_a_session() {
    let mut server = Server::new();
    let token = server.token(1, UNIX, SubscriptionPlan::Pro);
    let (actions, mut handshake) = server.greet(&token, &fresh(1));
    assert_eq!(actions.len(), 1);
    let step = handshake.on_reply(Some(reply(&actions[0])));
    assert_eq!(step.save, Some(SavedSession { session_id: [1; 16], resume_token: [101; 32] }));
    let session = server.manager.get(&[1; 16]).unwrap();
    assert_eq!(session.capabilities, 13);
    assert_eq!((session.device_limit, session.max_mbps), (5, 500));
    assert_eq!(session.ipv4, [10, 77, 0, 2]);
}

#[test]
fn a_second_device_replaces_the_first() {
    let mut server = Server::new();
    let token = server.token(1, UNIX, SubscriptionPlan::Basic);
    server.greet(&token, &fresh(1));
    let (actions, _) = server.greet(&token, &fresh(2));
    assert_eq!(actions.len(), 2);
    let notice = reply(&actions[0]);
    assert_eq!((notice.frame_type, notice.sequence), (FrameType::Close, 0));
    let close = Close::decode(notice.payload).unwrap();
    assert_eq!((close.session_id, close.reason), ([1; 16], CloseReason::Replaced));
    assert!(server.manager.get(&[1; 16]).is_none());
    assert!(server.manager.get(&[2; 16]).is_some());
}

#[test]
fn a_full_network_is_an_internal_error() {
    let mut server = Server::new();
    for n in 1..=253u8 {
        let token = server.token(n, UNIX, SubscriptionPlan::Unlimited);
        let (actions, _) = server.greet(&token, &fresh(n));
        assert_eq!(reply(&actions[0]).frame_type, FrameType::AllGoodDude);
    }
    let token = server.token(254, UNIX, SubscriptionPlan::Unlimited);
    let (actions, _) = server.greet(&token, &fresh(254));
    assert_eq!(denial(&actions).reason, DenyReason::InternalAuthError);
}

#[test]
fn a_session_is_resumed_from_elsewhere() {
    let mut server = Server::new();
    let (id, ipv4, saved) = server.open(7);
    let (mut handshake, step) = Handshake::begin(Some(saved));
    let asked = Frame::decode(step.send.unwrap()).unwrap();
    let actions = server.hear(AWAY, asked, NOW + 5, &fresh(8));
    assert_eq!(actions.len(), 1);
    let step = handshake.on_reply(Some(reply(&actions[0])));
    assert!(!step.forget);
    let request = Frame::decode(step.send.unwrap()).unwrap();
    let actions = server.hear(AWAY, request, NOW + 6, &fresh(9));
    let step = handshake.on_reply(Some(reply(&actions[0])));
    assert_eq!(step.save, Some(SavedSession { session_id: id, resume_token: [109; 32] }));
    let confirm = Frame::decode(step.send.unwrap()).unwrap();
    let actions = server.hear(AWAY, confirm, NOW + 7, &fresh(10));
    let step = handshake.on_reply(Some(reply(&actions[0])));
    assert!(matches!(step.next, Next::Up { session, resumed: true } if session.assigned_ipv4 == ipv4));
    let session = server.manager.get(&id).unwrap();
    assert_eq!((session.client_address, session.server_nonce), (AWAY, [109; 32]));
}

#[test]
fn a_wrong_resume_token_is_not_answered() {
    let mut server = Server::new();
    let (id, _, mut saved) = server.open(7);
    saved.resume_token = [1; 32];
    let (_, step) = Handshake::begin(Some(saved));
    let asked = Frame::decode(step.send.unwrap()).unwrap();
    assert!(server.hear(AWAY, asked, NOW, &fresh(8)).is_empty());
    assert_eq!(server.manager.get(&id).unwrap().client_address, HOME);
}

#[test]
fn an_expired_subscription_is_not_resumed() {
    let mut server = Server::new();
    let (_, _, saved) = server.open(7);
    let (_, step) = Handshake::begin(Some(saved));
    let asked = Frame::decode(step.send.unwrap()).unwrap();
    let later = UNIX + 86_400;
    let actions =
        handle_frame(&mut server.manager, &server.verifying, LINK, AWAY, asked, NOW, later, &fresh(8));
    let told = denial(&actions);
    assert_eq!((told.reason, told.expires_at), (DenyReason::SubscriptionExpired, later));
}

#[test]
fn packets_travel_both_ways_unchanged() {
    let mut server = Server::new();
    let (id, ipv4, _) = server.open(7);
    let mut tunnel = Tunnel::new(id);
    let up = packet(ipv4, [1, 1, 1, 1]);
    let sent = Frame::decode(tunnel.on_packet(&up).unwrap()).unwrap();
    let actions = server.hear(HOME, sent, NOW, &fresh(8));
    assert_eq!(actions.len(), 1);
    assert!(matches!(&actions[0], ServerAction::WriteTun { packet } if packet[..] == up[..]));

    let down = packet([1, 1, 1, 1], ipv4);
    let mut packet_id = 41u64;
    let action = route_packet(&mut server.manager, &mut packet_id, &down, NOW).unwrap();
    assert_eq!(packet_id, 42);
    let frame = reply(&action);
    assert_eq!(frame.sequence, 41);
    assert!(matches!(tunnel.on_frame(Some(frame)), TunnelStep::Write(packet) if packet[..] == down[..]));

    let lost = packet([1, 1, 1, 1], [10, 77, 0, 200]);
    assert!(route_packet(&mut server.manager, &mut packet_id, &lost, NOW).is_none());
    assert_eq!(packet_id, 42);
}

#[test]
fn only_honest_packets_leave() {
    let mut server = Server::new();
    let (id, ipv4, _) = server.open(7);
    let mut tunnel = Tunnel::new(id);
    let spoofed = Frame::decode(tunnel.on_packet(&packet([10, 77, 0, 99], [1, 1, 1, 1])).unwrap()).unwrap();
    assert!(server.hear(HOME, spoofed, NOW, &fresh(8)).is_empty());
    let honest = Frame::decode(tunnel.on_packet(&packet(ipv4, [1, 1, 1, 1])).unwrap()).unwrap();
    assert!(server.hear(AWAY, honest.clone(), NOW, &fresh(8)).is_empty());
    let late = handle_frame(
        &mut server.manager,
        &server.verifying,
        LINK,
        HOME,
        honest.clone(),
        NOW,
        UNIX + 86_400,
        &fresh(8),
    );
    assert!(late.is_empty());
    assert_eq!(server.hear(HOME, honest, NOW, &fresh(8)).len(), 1);
    server.manager.get(&id).unwrap();
    let far = plain(FrameType::Data, 100_000, Bytes::from(vec![7u8; 24]));
    assert_eq!(server.hear(HOME, far, NOW, &fresh(8)).len(), 1);
    let stale = Frame::decode(tunnel.on_packet(&packet(ipv4, [1, 1, 1, 1])).unwrap()).unwrap();
    assert!(server.hear(HOME, stale, NOW, &fresh(8)).is_empty());
}

#[test]
fn strangers_change_nothing() {
    let mut server = Server::new();
    let (id, _, _) = server.open(7);
    let before = *server.manager.get(&id).unwrap();
    for frame in [
        plain(FrameType::Ping, 50, Ping::new(id, 1).encode()),
        plain(FrameType::Rekey, 50, Rekey::request(id).encode()),
        plain(FrameType::Close, 50, Close::new(id, CloseReason::ClientShutdown).encode()),
        plain(FrameType::Pong, 50, Pong::new(id, 1).encode()),
    ] {
        assert!(server.hear(AWAY, frame, NOW + 9, &fresh(8)).is_empty());
        let after = server.manager.get(&id).unwrap();
        assert_eq!((after.last_activity, after.last_sequence), (before.last_activity, before.last_sequence));
        assert_eq!(after.pending_nonce, before.pending_nonce);
    }
}

#[test]
fn pings_are_answered_and_bring_tokens() {
    let mut server = Server::new();
    let (id, _, _) = server.open(7);
    let ping = plain(FrameType::Ping, 50, Ping::new(id, 3).encode());
    let actions = server.hear(HOME, ping, NOW + 1, &fresh(8));
    assert_eq!(actions.len(), 1);
    let frame = reply(&actions[0]);
    assert_eq!((frame.frame_type, frame.sequence), (FrameType::Pong, 51));
    assert_eq!(Pong::decode(frame.payload).unwrap().ping_id, 3);
    let ping = plain(FrameType::Ping, 51, Ping::new(id, 4).encode());
    let actions = server.hear(HOME, ping, NOW + REKEY_AFTER_MS, &fresh(8));
    assert_eq!(actions.len(), 2);
    assert_eq!(Rekey::decode(reply(&actions[1]).payload).unwrap(), Rekey::token(id, [108; 32]));
}

#[test]
fn a_close_ends_the_session() {
    let mut server = Server::new();
    let (id, _, _) = server.open(7);
    let bytes = Tunnel::new(id).on_stop();
    let actions = handle_packet(&mut server.manager, &server.verifying, 4, HOME, bytes, NOW, UNIX, &fresh(8));
    let close = Close::decode(reply(&actions[0]).payload).unwrap();
    assert_eq!((close.session_id, close.reason), (id, CloseReason::ClientShutdown));
    assert!(server.manager.is_empty());
}

#[test]
fn noise_is_ignored() {
    let mut server = Server::new();
    let noise = Bytes::from_static(b"GET / HTTP/1.1\r\n\r\n");
    assert!(handle_packet(&mut server.manager, &server.verifying, 4, HOME, noise, NOW, UNIX, &fresh(8)).is_empty());
}

#[test]
fn the_server_reads_revocations_from_a_file() {
    let mut server = Server::new();
    let token = server.token(1, UNIX, SubscriptionPlan::Basic);
    let mut ring = VerificationKeyRing::new();
    ring.insert(KEY_ID, server.key.verifying_key());
    let mut verifying: PayphoneVerifier = SubscriptionVerifier::new(ring, FileRevocationStore::open("revoked.txt"));
    let (mut handshake, _) = Handshake::begin(None);
    let asked = Frame::decode(handshake.ask(token.encode().to_vec()).send.unwrap()).unwrap();
    verifying.revocations.refresh(Some(1), Some("01010101010101010101010101010101\n"));
    let actions = handle_frame(&mut server.manager, &verifying, LINK, HOME, asked, NOW, UNIX, &fresh(1));
    assert_eq!(denial(&actions).reason, DenyReason::TokenRevoked);
}

#[test]
fn late_frames_are_dropped() {
    let mut server = Server::new();
    let (id, _, _) = server.open(1);
    let ping = |sequence| plain(FrameType::Ping, sequence, Ping::new(id, 1).encode());
    assert_eq!(server.hear(HOME, ping(5000), NOW, &fresh(2)).len(), 1);
    let asked = |sequence| plain(FrameType::Rekey, sequence, Rekey::request(id).encode());
    let ended = |sequence| plain(FrameType::Close, sequence, Close::new(id, CloseReason::ClientShutdown).encode());
    for frame in [ping(3976), asked(3976), ended(3976)] {
        assert!(server.hear(HOME, frame, NOW, &fresh(3)).is_empty());
    }
    assert_eq!(server.manager.get(&id).unwrap().pending_nonce, None);
    assert_eq!(server.hear(HOME, asked(3977), NOW, &fresh(3)).len(), 1);
    assert_eq!(server.manager.get(&id).unwrap().pending_nonce, Some(fresh(3).nonce));
    assert_eq!(server.manager.get(&id).unwrap().last_sequence, 5000);
    assert_eq!(server.hear(HOME, ended(3977), NOW, &fresh(4)).len(), 1);
    assert!(server.manager.get(&id).is_none());
}

#[test]
fn what_matters_is_stored() {
    let mut server = Server::new();
    let (id, ipv4, saved) = server.open(7);
    assert!(server.manager.take_unsaved());
    let ping = plain(FrameType::Ping, 50, Ping::new(id, 1).encode());
    server.hear(HOME, ping, NOW + 1, &fresh(8));
    let mut tunnel = Tunnel::new(id);
    let data = Frame::decode(tunnel.on_packet(&packet(ipv4, [1, 1, 1, 1])).unwrap()).unwrap();
    server.hear(HOME, data, NOW + 1, &fresh(8));
    let mut packet_id = 0;
    assert!(route_packet(&mut server.manager, &mut packet_id, &packet([1, 1, 1, 1], ipv4), NOW).is_some());
    assert!(!server.manager.take_unsaved());
    let asked = || plain(FrameType::Rekey, 51, Rekey::request(id).encode());
    server.hear(HOME, asked(), NOW + 1, &fresh(8));
    assert!(server.manager.take_unsaved());
    server.hear(HOME, asked(), NOW + 1, &fresh(9));
    assert!(!server.manager.take_unsaved());
    let confirm = |nonce| plain(FrameType::Rekey, 52, Rekey::token(id, nonce).encode());
    server.hear(HOME, confirm([1; 32]), NOW + 1, &fresh(9));
    assert!(!server.manager.take_unsaved());
    server.hear(HOME, confirm(fresh(8).nonce), NOW + 1, &fresh(9));
    assert!(server.manager.take_unsaved());
    let late = plain(FrameType::Ping, 53, Ping::new(id, 2).encode());
    server.hear(HOME, late, NOW + 2 + REKEY_AFTER_MS, &fresh(10));
    assert!(server.manager.take_unsaved());
    let (_, step) = Handshake::begin(Some(saved));
    let back = Frame::decode(step.send.unwrap()).unwrap();
    assert_eq!(server.hear(AWAY, back, NOW + 3, &fresh(11)).len(), 1);
    assert!(server.manager.take_unsaved());
    let close = plain(FrameType::Close, 60, Close::new(id, CloseReason::ClientShutdown).encode());
    server.hear(HOME, close.clone(), NOW + 4, &fresh(12));
    assert!(!server.manager.take_unsaved());
    server.hear(AWAY, close, NOW + 4, &fresh(12));
    assert!(server.manager.take_unsaved());
}
