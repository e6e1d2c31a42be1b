use bytes::Bytes;
use payphone::client::matrix::{
    draw_centered, flow_size, headline, intro_size, read_report, terminal_size, FlowIndicator, Rain, Rng, FULL_GLOW,
    GLYPHS, INTRO_SEED,
};
use payphone::client::session::{ActiveSession, Handshake, HandshakeFault, Next, Phase, CLIENT_CAPABILITIES};
use payphone::client::session_file::{
    derive_key, load, open, save, save_drawn, seal, seal_drawn, seal_with, SavedSession, NONCE_SIZE, PLAINTEXT_SIZE,
};
use payphone::client::tunnel::{
    after_connect_failure, after_tunnel, ping_interval, random_ping_interval, tun_mtu, Onward, Tunnel, TunnelExit,
    TunnelStep,
};
use payphone::protocol::access_denied_dude::{AccessDeniedDude, DenyReason};
use payphone::protocol::all_good_dude::AllGoodDude;
use payphone::protocol::back_again_dude::BackAgainDude;
use payphone::protocol::close::{Close, CloseReason};
use payphone::protocol::data::Data;
use payphone::protocol::ping::Ping;
use payphone::protocol::pong::Pong;
use payphone::protocol::rekey::Rekey;
use payphone::protocol::still_good_dude::StillGoodDude;
use payphone::protocol::whats_up_dude::WhatsUpDude;
use payphone::protocol::{Frame, FrameError, FrameType, PROTOCOL_VERSION};

const SAVED: SavedSession = SavedSession { session_id: [1u8; 16], resume_token: [2u8; 32] };

fn frame(frame_type: FrameType, payload: Bytes) -> Frame {
    Frame { version: PROTOCOL_VERSION, frame_type, flags: 0, sequence: 9, payload }
}

fn sent(bytes: &Option<Bytes>) -> Frame {
    Frame::decode(bytes.clone().expect("a frame is sent")).unwrap()
}

// ---------------------------------------------------------------------------
// The session file
// ---------------------------------------------------------------------------

#[test]
fn encrypted_roundtrip() {
    let key = derive_key("test-psk-not-a-placeholder");
    let mut plaintext = [0u8; PLAINTEXT_SIZE];
    plaintext[0] = 7;
    plaintext[47] = 9;
    let sealed = seal(&key, &plaintext).unwrap();
    assert_ne!(&sealed[5 + NONCE_SIZE..], plaintext.as_slice());
    assert_eq!(open(&key, &sealed).unwrap(), plaintext);
}

#[test]
fn plaintext_legacy_still_loads() {
    let key = derive_key("test-psk-not-a-placeholder");
    let plaintext = [3u8; PLAINTEXT_SIZE];
    assert_eq!(open(&key, &plaintext).unwrap(), plaintext);
}

#[test]
fn wrong_key_fails() {
    let mut plaintext = [1u8; PLAINTEXT_SIZE];
    plaintext[2] = 4;
    let sealed = seal(&derive_key("one"), &plaintext).unwrap();
    assert!(open(&derive_key("two"), &sealed).is_none());
}

#[test]
fn session_file_layout_is_exact() {
    let key = derive_key("one");
    let file = seal_with(&key, &[8u8; NONCE_SIZE], &[1u8; PLAINTEXT_SIZE]);
    assert_eq!(&file[..4], b"PAYE");
    assert_eq!(file[4], 1);
    assert_eq!(&file[5..17], &[8u8; NONCE_SIZE]);
    assert_eq!(file.len(), 17 + PLAINTEXT_SIZE + 16);
    let mut other = file.clone();
    other[4] = 2;
    assert!(open(&key, &other).is_none());
    assert!(open(&key, &file[..20]).is_none());
}

#[test]
fn a_saved_session_loads_again() {
    let key = derive_key("one");
    let file = save(&key, SAVED.session_id, SAVED.resume_token).unwrap();
    assert_eq!(load(&key, &file), Some(SAVED));
    assert_eq!(load(&derive_key("two"), &file), None);
}

// ---------------------------------------------------------------------------
// The handshake
// ---------------------------------------------------------------------------

fn active() -> ActiveSession {
    ActiveSession { session_id: [1u8; 16], assigned_ipv4: [10, 77, 0, 9], mtu: 1100, capabilities: 13 }
}

#[test]
fn a_saved_session_is_resumed_and_its_token_replaced() {
    let (mut handshake, step) = Handshake::begin(Some(SAVED));
    let asked = sent(&step.send);
    assert_eq!(asked.frame_type, FrameType::BackAgainDude);
    assert_eq!(asked.sequence, 1);
    let message = BackAgainDude::decode(asked.payload).unwrap();
    assert_eq!((message.session_id, message.resume_token), (SAVED.session_id, SAVED.resume_token));
    assert!(matches!(step.next, Next::Wait(2_000)));

    let good = StillGoodDude::new(SAVED.session_id, [10, 77, 0, 9], 1100, 13);
    let step = handshake.on_reply(Some(frame(FrameType::StillGoodDude, good.encode())));
    assert!(!step.forget && step.save.is_none());
    let request = sent(&step.send);
    assert_eq!(request.sequence, 2);
    assert_eq!(Rekey::decode(request.payload).unwrap(), Rekey::request(SAVED.session_id));

    let offer = Rekey::token(SAVED.session_id, [7u8; 32]);
    let step = handshake.on_reply(Some(frame(FrameType::Rekey, offer.encode())));
    assert_eq!(step.save, Some(SavedSession { session_id: SAVED.session_id, resume_token: [7u8; 32] }));
    assert!(!step.must_save);
    let confirm = sent(&step.send);
    assert_eq!(confirm.sequence, 3);
    assert_eq!(Rekey::decode(confirm.payload).unwrap(), offer);

    let current = Rekey::token(SAVED.session_id, [7u8; 32]);
    let step = handshake.on_reply(Some(frame(FrameType::Rekey, current.encode())));
    assert!(step.save.is_some());
    assert!(matches!(step.next, Next::Up { session, resumed: true } if session == active()));
    assert!(matches!(handshake.phase, Phase::Over));
    assert!(matches!(handshake.on_reply(None).next, Next::Failed(HandshakeFault::Finished)));
}

#[test]
fn a_refused_resume_starts_anew() {
    let denied = AccessDeniedDude::new(DenyReason::SubscriptionExpired, 0).encode();
    for (reply, reason) in [
        (None, None),
        (Some(frame(FrameType::Pong, Bytes::new())), None),
        (Some(frame(FrameType::AccessDeniedDude, denied)), Some(DenyReason::SubscriptionExpired)),
        (
            Some(frame(FrameType::StillGoodDude, StillGoodDude::new([9u8; 16], [10, 77, 0, 9], 1100, 13).encode())),
            None,
        ),
    ] {
        let (mut handshake, _) = Handshake::begin(Some(SAVED));
        let step = handshake.on_reply(reply);
        assert!(step.forget);
        assert_eq!(step.denied, reason);
        assert!(matches!(step.next, Next::NeedToken));
    }
    let (mut handshake, _) = Handshake::begin(Some(SAVED));
    let step = handshake.on_reply(Some(frame(FrameType::StillGoodDude, Bytes::from_static(b"short"))));
    assert!(matches!(
        step.next,
        Next::Failed(HandshakeFault::BadFrame(FrameError::InvalidStillGoodDudeLength))
    ));
}

#[test]
fn a_new_session_is_saved_before_it_is_used() {
    let (mut handshake, step) = Handshake::begin(None);
    assert!(matches!(step.next, Next::NeedToken));
    let step = handshake.ask(b"subscription".to_vec());
    let asked = sent(&step.send);
    assert_eq!(asked.frame_type, FrameType::WhatsUpDude);
    let message = WhatsUpDude::decode(asked.payload).unwrap();
    assert_eq!(message.auth_token, Bytes::from_static(b"subscription"));
    assert_eq!((message.client_version, message.capabilities), (1, CLIENT_CAPABILITIES));
    assert!(matches!(step.next, Next::Wait(5_000)));

    let good = AllGoodDude::new([10, 77, 0, 2], 1100, 13);
    let step = handshake.on_reply(Some(frame(FrameType::AllGoodDude, good.encode())));
    assert_eq!(step.save, Some(SavedSession { session_id: good.session_id, resume_token: good.server_nonce }));
    assert!(step.must_save);
    assert_eq!(sent(&step.send).frame_type, FrameType::Rekey);
    let step = handshake.on_send_failure();
    assert!(matches!(step.next, Next::Up { session, resumed: false } if session.assigned_ipv4 == [10, 77, 0, 2]));
}

#[test]
fn a_refused_client_hears_why() {
    let cases = [
        (None, HandshakeFault::NoReply),
        (
            Some(frame(FrameType::AccessDeniedDude, AccessDeniedDude::new(DenyReason::TokenRevoked, 0).encode())),
            HandshakeFault::Denied(DenyReason::TokenRevoked),
        ),
        (Some(frame(FrameType::Pong, Bytes::new())), HandshakeFault::Unexpected(FrameType::Pong)),
    ];
    for (reply, fault) in cases {
        let (mut handshake, _) = Handshake::begin(None);
        handshake.ask(vec![1]);
        let step = handshake.on_reply(reply);
        assert!(matches!(step.next, Next::Failed(found) if found == fault));
    }
    assert_eq!(HandshakeFault::Denied(DenyReason::TokenRevoked).message(), "PAYPHONE access denied: TokenRevoked");
    assert_eq!(HandshakeFault::Unexpected(FrameType::Pong).message(), "unexpected handshake frame: Pong");
    let (mut handshake, _) = Handshake::begin(Some(SAVED));
    assert!(matches!(handshake.on_send_failure().next, Next::Failed(HandshakeFault::NotSent)));
}

// ---------------------------------------------------------------------------
// The tunnel
// ---------------------------------------------------------------------------

#[test]
fn packets_and_pings_are_counted() {
    let mut tunnel = Tunnel::new([1u8; 16]);
    assert!(tunnel.on_packet(&[]).is_none());
    for i in 0..3u64 {
        let frame = sent(&tunnel.on_packet(&[5, 6, 7]));
        assert_eq!((frame.frame_type, frame.sequence), (FrameType::Data, 10 + i));
        let data = Data::decode(frame.payload).unwrap();
        assert_eq!((data.session_id, data.packet_id), ([1u8; 16], 1 + i));
        assert_eq!(data.payload, Bytes::from_static(&[5, 6, 7]));
    }
    let frame = Frame::decode(tunnel.on_ping()).unwrap();
    assert_eq!(frame.sequence, 13);
    assert_eq!(Ping::decode(frame.payload).unwrap().ping_id, 1);
    let frame = Frame::decode(tunnel.on_stop()).unwrap();
    assert_eq!(frame.sequence, 14);
    assert_eq!(Close::decode(frame.payload).unwrap().reason, CloseReason::ClientShutdown);
}

#[test]
fn frames_for_the_session_are_obeyed() {
    let mut tunnel = Tunnel::new([1u8; 16]);
    let data = Data::new([1u8; 16], 3, Bytes::from_static(b"packet"));
    let step = tunnel.on_frame(Some(frame(FrameType::Data, data.encode())));
    assert!(matches!(step, TunnelStep::Write(packet) if packet == Bytes::from_static(b"packet")));

    let pong = Pong::new([1u8; 16], 1);
    assert!(matches!(tunnel.on_frame(Some(frame(FrameType::Pong, pong.encode()))), TunnelStep::Pulse));

    let token = Rekey::token([1u8; 16], [4u8; 32]);
    match tunnel.on_frame(Some(frame(FrameType::Rekey, token.encode()))) {
        TunnelStep::Rekey { save, send } => {
            assert_eq!(save, SavedSession { session_id: [1u8; 16], resume_token: [4u8; 32] });
            let confirm = Frame::decode(send).unwrap();
            assert_eq!(confirm.sequence, 10);
            assert_eq!(Rekey::decode(confirm.payload).unwrap(), token);
        }
        other => panic!("{other:?}"),
    }
    assert_eq!(tunnel.frame_sequence, 11);

    let close = Close::new([1u8; 16], CloseReason::Replaced);
    match tunnel.on_frame(Some(frame(FrameType::Close, close.encode()))) {
        TunnelStep::Exit { forget: true, exit: TunnelExit::Denied(message) } => {
            assert_eq!(message, "PAYPHONE session replaced by another device");
        }
        other => panic!("{other:?}"),
    }
    let denied = AccessDeniedDude::new(DenyReason::TokenRevoked, 0);
    match tunnel.on_frame(Some(frame(FrameType::AccessDeniedDude, denied.encode()))) {
        TunnelStep::Exit { forget: true, exit: TunnelExit::Denied(message) } => {
            assert_eq!(message, "PAYPHONE access revoked: TokenRevoked");
        }
        other => panic!("{other:?}"),
    }
    assert!(matches!(tunnel.on_frame(None), TunnelStep::Exit { forget: false, exit: TunnelExit::Disconnected }));
    let bad = tunnel.on_frame(Some(frame(FrameType::Pong, Bytes::new())));
    assert!(matches!(bad, TunnelStep::Fail(FrameError::InvalidPongLength)));
}

#[test]
fn frames_for_another_session_are_ignored() {
    let mut tunnel = Tunnel::new([1u8; 16]);
    for (frame_type, payload) in [
        (FrameType::Data, Data::new([2u8; 16], 1, Bytes::from_static(b"x")).encode()),
        (FrameType::Pong, Pong::new([2u8; 16], 1).encode()),
        (FrameType::Rekey, Rekey::token([2u8; 16], [4u8; 32]).encode()),
        (FrameType::Close, Close::new([2u8; 16], CloseReason::ServerShutdown).encode()),
        (FrameType::Ping, Ping::new([1u8; 16], 1).encode()),
    ] {
        assert!(matches!(tunnel.on_frame(Some(frame(frame_type, payload))), TunnelStep::Nothing));
    }
}

#[test]
fn the_mtu_follows_the_link() {
    assert_eq!(tun_mtu(false, None), 1450);
    assert_eq!(tun_mtu(true, None), 1100);
    assert_eq!(tun_mtu(true, Some(1440)), 1400);
}

#[test]
fn pings_keep_a_random_distance() {
    assert_eq!(ping_interval(0), 7_000);
    assert_eq!(ping_interval(u16::MAX), 14_000);
    assert_eq!(ping_interval(0x8000), 10_500);
    let ms = random_ping_interval();
    assert!((7_000..=14_000).contains(&ms));
}

#[test]
fn the_client_reconnects_until_it_is_stopped() {
    assert!(matches!(after_connect_failure(false), Onward::FailAsMet));
    assert!(matches!(after_connect_failure(true), Onward::Again(1_000)));
    assert!(matches!(after_tunnel(TunnelExit::Disconnected), Onward::Again(400)));
    assert!(matches!(after_tunnel(TunnelExit::Stopped), Onward::Quit));
    assert!(matches!(after_tunnel(TunnelExit::Denied("no".into())), Onward::Fail(text) if text == "no"));
}

// ---------------------------------------------------------------------------
// The rain
// ---------------------------------------------------------------------------

#[test]
fn the_generator_is_xorshift() {
    let mut rng = Rng(1);
    assert_eq!(rng.next(), 1_082_269_761);
    assert_eq!(rng.below(0), 0);
    assert_eq!(rng.0, 1_082_269_761);
    let drawn = rng.below(10);
    assert!(drawn < 10);
    assert!(GLYPHS.contains(&rng.glyph()));
}

#[test]
fn rain_falls_and_fades() {
    let mut rain = Rain::new(30, 12, INTRO_SEED, true);
    assert!(rain.cells.iter().all(|cell| cell.glow == 0));
    let dark = rain.frame_text();
    assert_eq!(dark.lines().count(), 12);
    for _ in 0..60 {
        rain.tick(true);
        assert!(rain.cells.iter().all(|cell| cell.glow <= FULL_GLOW));
    }
    assert!(rain.cells.iter().any(|cell| cell.glow > 0));
    assert_ne!(rain.frame_text(), dark);
    let mut row = Vec::new();
    rain.paint_row(0, &mut row);
    let row: String = row.into_iter().collect();
    assert!(row.ends_with("\x1b[0m\x1b[K"));
    let mut again = Rain::new(30, 12, INTRO_SEED, true);
    for _ in 0..60 {
        again.tick(true);
    }
    assert_eq!(again.frame_text(), rain.frame_text());
}

#[test]
fn a_dark_row_has_one_colour() {
    let rain = Rain::new(4, 1, 7, false);
    assert_eq!(rain.frame_text(), "\x1b[0m    \x1b[0m\x1b[K\n");
}

#[test]
fn packets_feed_the_flow() {
    let mut flow = FlowIndicator::new(20, 10);
    flow.pulse();
    flow.pulse();
    assert_eq!((flow.packet_count, flow.energy), (2, 6));
    for _ in 0..100 {
        flow.pulse();
    }
    assert_eq!(flow.energy, 80);
    let text = flow.tick(1_000).unwrap();
    assert!(text.starts_with("\x1b[11A"));
    assert!(text.contains("· 102 pkts"));
    assert_eq!(flow.energy, 79);
    assert!(flow.tick(1_039).is_none());
    assert!(flow.tick(1_040).is_some());
    assert!(flow.finish_line());
    assert!(!flow.finish_line());
    assert!(flow.tick(9_000).is_none());
    assert!(headline(0).contains("follow the white rabbit · 0 pkts"));
}

#[test]
fn the_terminal_is_kept_within_reason() {
    assert_eq!(read_report(" 120\n"), Some(120));
    assert_eq!(read_report("0"), None);
    assert_eq!(read_report("none"), None);
    assert_eq!(terminal_size(None, None), (60, 24));
    assert_eq!(terminal_size(Some(10), Some(1_000)), (20, 80));
    assert_eq!(intro_size((60, 24)), (59, 23));
    assert_eq!(flow_size((60, 24)), (59, 10));
    assert_eq!(flow_size((200, 80)), (199, 22));
    assert_eq!(draw_centered(20, 5, "PAYPHONE"), "\x1b[5;7H\x1b[1;32mPAYPHONE\x1b[0m");
}

#[test]
fn a_file_needs_a_nonce() {
    let key = derive_key("a passphrase");
    let plain = [3u8; PLAINTEXT_SIZE];
    let nonce = [4u8; NONCE_SIZE];
    assert_eq!(seal_drawn(&key, Some(nonce), &plain), Ok(seal_with(&key, &nonce, &plain)));
    assert!(seal_drawn(&key, None, &plain).is_err());
    let file = save_drawn(&key, Some(nonce), SAVED.session_id, SAVED.resume_token).unwrap();
    assert_eq!(file[5..17], nonce);
    assert_eq!(load(&key, &file), Some(SAVED));
    assert!(save_drawn(&key, None, SAVED.session_id, SAVED.resume_token).is_err());
}
