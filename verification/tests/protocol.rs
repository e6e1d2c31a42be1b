use bytes::Bytes;
use payphone::protocol::access_denied_dude::{AccessDeniedDude, DenyReason, ACCESS_DENIED_DUDE_SIZE};
use payphone::protocol::all_good_dude::{AllGoodDude, ALL_GOOD_DUDE_SIZE, SERVER_NONCE_SIZE, SESSION_ID_SIZE};
use payphone::protocol::back_again_dude::{BackAgainDude, BACK_AGAIN_DUDE_SIZE};
use payphone::protocol::close::{Close, CloseReason, CLOSE_SIZE};
use payphone::protocol::data::{Data, MAX_DATA_PAYLOAD_SIZE};
use payphone::protocol::ping::{Ping, PING_SIZE};
use payphone::protocol::pong::{Pong, PONG_SIZE};
use payphone::protocol::rekey::Rekey;
use payphone::protocol::still_good_dude::{StillGoodDude, STILL_GOOD_DUDE_SIZE};
use payphone::protocol::whats_up_dude::{WhatsUpDude, CAP_DNS, CAP_IPV4, CAP_IPV6, MAX_AUTH_TOKEN_SIZE};
use payphone::protocol::{
    Frame, FrameError, FrameType, DEFAULT_PORT, DEFAULT_TCP_PORT, HEADER_SIZE, MAX_PAYLOAD_SIZE, PROTOCOL_VERSION,
};

fn frame(frame_type: FrameType, sequence: u64, payload: Bytes) -> Frame {
    Frame { version: PROTOCOL_VERSION, frame_type, flags: 0, sequence, payload }
}

#[test]
fn access_denied_roundtrip() {
    let original = AccessDeniedDude::new(DenyReason::SubscriptionExpired, 1_800_000_000);
    let encoded = original.encode();
    assert_eq!(encoded.len(), ACCESS_DENIED_DUDE_SIZE);
    let decoded = AccessDeniedDude::decode(encoded).unwrap();
    assert_eq!(decoded.reason, DenyReason::SubscriptionExpired);
    assert_eq!(decoded.expires_at, 1_800_000_000);
}

#[test]
fn all_good_dude_roundtrip() {
    let original = AllGoodDude::new([10, 77, 0, 2], 1280, 7);
    let encoded = original.encode();
    assert_eq!(encoded.len(), ALL_GOOD_DUDE_SIZE);
    let decoded = AllGoodDude::decode(encoded).expect("AllGoodDude decode failed");
    assert_eq!(decoded.protocol_version, PROTOCOL_VERSION);
    assert_eq!(decoded.assigned_ipv4, [10, 77, 0, 2]);
    assert_eq!(decoded.mtu, 1280);
    assert_eq!(decoded.capabilities, 7);
    assert_eq!(decoded.session_id, original.session_id);
    assert_eq!(decoded.server_nonce, original.server_nonce);
}

#[test]
fn session_id_is_random() {
    let first = AllGoodDude::new([10, 77, 0, 2], 1280, 0);
    let second = AllGoodDude::new([10, 77, 0, 2], 1280, 0);
    assert_ne!(first.session_id, second.session_id);
}

#[test]
fn back_again_dude_roundtrip() {
    let session_id = [7u8; SESSION_ID_SIZE];
    let resume_token = [9u8; SERVER_NONCE_SIZE];
    let original = BackAgainDude::new(session_id, resume_token);
    let encoded = original.encode();
    assert_eq!(encoded.len(), BACK_AGAIN_DUDE_SIZE);
    let decoded = BackAgainDude::decode(encoded).expect("BackAgainDude decode failed");
    assert_eq!(decoded.session_id, session_id);
    assert_eq!(decoded.resume_token, resume_token);
}

#[test]
fn invalid_back_again_dude_size_fails() {
    let data = Bytes::from_static(&[1, 2, 3]);
    let result = BackAgainDude::decode(data);
    assert!(result.is_err());
}

#[test]
fn close_roundtrip() {
    let original = Close::new([9u8; 16], CloseReason::ClientShutdown);
    let encoded = original.encode();
    assert_eq!(encoded.len(), CLOSE_SIZE);
    let decoded = Close::decode(encoded).expect("CLOSE decode failed");
    assert_eq!(decoded.session_id, [9u8; 16]);
    assert_eq!(decoded.reason, CloseReason::ClientShutdown);
}

#[test]
fn data_roundtrip() {
    let session_id = [7u8; 16];
    let original = Data::new(session_id, 42, Bytes::from_static(b"Hello through PAYPHONE"));
    let encoded = original.encode();
    let decoded = Data::decode(encoded).expect("DATA decode failed");
    assert_eq!(decoded.session_id, session_id);
    assert_eq!(decoded.packet_id, 42);
    assert_eq!(decoded.payload, Bytes::from_static(b"Hello through PAYPHONE"));
}

#[test]
fn data_too_small_fails() {
    let data = Bytes::from_static(&[1, 2, 3]);
    let result = Data::decode(data);
    assert!(result.is_err());
}

#[test]
fn frame_roundtrip() {
    let original = Frame {
        version: PROTOCOL_VERSION,
        frame_type: FrameType::Data,
        flags: 0,
        sequence: 42,
        payload: Bytes::from_static(b"hello payphone"),
    };
    let encoded = original.encode();
    let decoded = Frame::decode(encoded).expect("Frame decode failed");
    assert_eq!(decoded.version, PROTOCOL_VERSION);
    assert_eq!(decoded.frame_type, FrameType::Data);
    assert_eq!(decoded.flags, 0);
    assert_eq!(decoded.sequence, 42);
    assert_eq!(decoded.payload, Bytes::from_static(b"hello payphone"));
}

#[test]
fn unknown_frame_type_fails() {
    let result = FrameType::try_from(99);
    assert!(result.is_err());
}

#[test]
fn small_frame_fails() {
    let data = Bytes::from_static(&[1, 2, 3]);
    let result = Frame::decode(data);
    assert!(result.is_err());
}

#[test]
fn unsupported_version_fails() {
    let frame = Frame { version: 99, frame_type: FrameType::Ping, flags: 0, sequence: 1, payload: Bytes::new() };
    let encoded = frame.encode();
    let result = Frame::decode(encoded);
    assert!(matches!(result, Err(FrameError::UnsupportedVersion(99))));
}

#[test]
fn whats_up_dude_inside_frame_roundtrip() {
    let message = WhatsUpDude::new(1, CAP_IPV4 | CAP_IPV6 | CAP_DNS, Bytes::from_static(b"test-token"));
    let frame = frame(FrameType::WhatsUpDude, 1, message.encode());
    let network = frame.encode();
    let decoded_frame = Frame::decode(network).expect("Frame decode failed");
    assert_eq!(decoded_frame.frame_type, FrameType::WhatsUpDude);
    let decoded_message = WhatsUpDude::decode(decoded_frame.payload).expect("WhatsUpDude decode failed");
    assert_eq!(decoded_message.protocol_version, PROTOCOL_VERSION);
    assert_eq!(decoded_message.client_version, 1);
    assert!(decoded_message.supports(CAP_IPV4));
    assert!(decoded_message.supports(CAP_IPV6));
    assert!(decoded_message.supports(CAP_DNS));
}

#[test]
fn all_good_dude_inside_frame_roundtrip() {
    let message = AllGoodDude::new([10, 77, 0, 2], 1280, 13);
    let original_session_id = message.session_id;
    let frame = frame(FrameType::AllGoodDude, 2, message.encode());
    let network = frame.encode();
    let decoded_frame = Frame::decode(network).expect("Frame decode failed");
    assert_eq!(decoded_frame.frame_type, FrameType::AllGoodDude);
    let decoded = AllGoodDude::decode(decoded_frame.payload).expect("AllGoodDude decode failed");
    assert_eq!(decoded.assigned_ipv4, [10, 77, 0, 2]);
    assert_eq!(decoded.mtu, 1280);
    assert_eq!(decoded.session_id, original_session_id);
}

#[test]
fn data_inside_frame_roundtrip() {
    let session_id = [9u8; 16];
    let data = Data::new(session_id, 1, Bytes::from_static(b"Hello through PAYPHONE"));
    let frame = frame(FrameType::Data, 3, data.encode());
    let network = frame.encode();
    let decoded_frame = Frame::decode(network).expect("Frame decode failed");
    assert_eq!(decoded_frame.frame_type, FrameType::Data);
    let decoded_data = Data::decode(decoded_frame.payload).expect("DATA decode failed");
    assert_eq!(decoded_data.session_id, session_id);
    assert_eq!(decoded_data.packet_id, 1);
    assert_eq!(decoded_data.payload, Bytes::from_static(b"Hello through PAYPHONE"));
}

#[test]
fn ping_inside_frame_roundtrip() {
    let ping = Ping::new([1u8; 16], 55);
    let frame = frame(FrameType::Ping, 5, ping.encode());
    let decoded_frame = Frame::decode(frame.encode()).unwrap();
    let decoded_ping = Ping::decode(decoded_frame.payload).unwrap();
    assert_eq!(decoded_ping.ping_id, 55);
    assert_eq!(decoded_ping.session_id, [1u8; 16]);
}

#[test]
fn pong_inside_frame_roundtrip() {
    let pong = Pong::new([2u8; 16], 99);
    let frame = frame(FrameType::Pong, 6, pong.encode());
    let decoded_frame = Frame::decode(frame.encode()).unwrap();
    let decoded_pong = Pong::decode(decoded_frame.payload).unwrap();
    assert_eq!(decoded_pong.ping_id, 99);
    assert_eq!(decoded_pong.session_id, [2u8; 16]);
}

#[test]
fn back_again_dude_inside_frame_roundtrip() {
    let session_id = [3u8; 16];
    let resume_token = [4u8; 32];
    let message = BackAgainDude::new(session_id, resume_token);
    let frame = frame(FrameType::BackAgainDude, 1, message.encode());
    let decoded_frame = Frame::decode(frame.encode()).expect("Frame decode failed");
    assert_eq!(decoded_frame.frame_type, FrameType::BackAgainDude);
    let decoded = BackAgainDude::decode(decoded_frame.payload).expect("BackAgainDude decode failed");
    assert_eq!(decoded.session_id, session_id);
    assert_eq!(decoded.resume_token, resume_token);
}

#[test]
fn still_good_dude_inside_frame_roundtrip() {
    let message = StillGoodDude::new([5u8; 16], [10, 77, 0, 2], 1280, 13);
    let frame = frame(FrameType::StillGoodDude, 2, message.encode());
    let decoded_frame = Frame::decode(frame.encode()).expect("Frame decode failed");
    assert_eq!(decoded_frame.frame_type, FrameType::StillGoodDude);
    let decoded = StillGoodDude::decode(decoded_frame.payload).expect("StillGoodDude decode failed");
    assert_eq!(decoded.session_id, [5u8; 16]);
    assert_eq!(decoded.assigned_ipv4, [10, 77, 0, 2]);
    assert_eq!(decoded.mtu, 1280);
    assert_eq!(decoded.capabilities, 13);
}

#[test]
fn ping_roundtrip() {
    let original = Ping::new([7u8; 16], 42);
    let encoded = original.encode();
    assert_eq!(encoded.len(), PING_SIZE);
    let decoded = Ping::decode(encoded).expect("PING decode failed");
    assert_eq!(decoded.session_id, [7u8; 16]);
    assert_eq!(decoded.ping_id, 42);
}

#[test]
fn pong_roundtrip() {
    let original = Pong::new([9u8; 16], 123);
    let encoded = original.encode();
    assert_eq!(encoded.len(), PONG_SIZE);
    let decoded = Pong::decode(encoded).expect("PONG decode failed");
    assert_eq!(decoded.session_id, [9u8; 16]);
    assert_eq!(decoded.ping_id, 123);
}

#[test]
fn request_roundtrip() {
    let original = Rekey::request([3u8; 16]);
    let decoded = Rekey::decode(original.encode()).unwrap();
    assert_eq!(decoded, original);
}

#[test]
fn rekey_token_roundtrip() {
    let original = Rekey::token([3u8; 16], [7u8; 32]);
    let decoded = Rekey::decode(original.encode()).unwrap();
    assert_eq!(decoded, original);
}

#[test]
fn still_good_dude_roundtrip() {
    let session_id = [5u8; SESSION_ID_SIZE];
    let original = StillGoodDude::new(session_id, [10, 77, 0, 2], 1280, 13);
    let encoded = original.encode();
    assert_eq!(encoded.len(), STILL_GOOD_DUDE_SIZE);
    let decoded = StillGoodDude::decode(encoded).expect("StillGoodDude decode failed");
    assert_eq!(decoded.session_id, session_id);
    assert_eq!(decoded.assigned_ipv4, [10, 77, 0, 2]);
    assert_eq!(decoded.mtu, 1280);
    assert_eq!(decoded.capabilities, 13);
}

#[test]
fn invalid_still_good_dude_size_fails() {
    let data = Bytes::from_static(&[1, 2, 3]);
    let result = StillGoodDude::decode(data);
    assert!(result.is_err());
}

#[test]
fn whats_up_dude_roundtrip() {
    let token = Bytes::from_static(b"fake-subscription-token");
    let original = WhatsUpDude::new(1, CAP_IPV4 | CAP_IPV6 | CAP_DNS, token.clone());
    let encoded = original.encode();
    let decoded = WhatsUpDude::decode(encoded).expect("WhatsUpDude decode failed");
    assert_eq!(decoded.protocol_version, PROTOCOL_VERSION);
    assert_eq!(decoded.client_version, 1);
    assert!(decoded.supports(CAP_IPV4));
    assert!(decoded.supports(CAP_IPV6));
    assert!(decoded.supports(CAP_DNS));
    assert_eq!(decoded.auth_token, token);
    assert_eq!(decoded.client_nonce, original.client_nonce);
}

#[test]
fn whats_up_dude_nonce_is_random() {
    let first = WhatsUpDude::new(1, 0, Bytes::from_static(b"token"));
    let second = WhatsUpDude::new(1, 0, Bytes::from_static(b"token"));
    assert_ne!(first.client_nonce, second.client_nonce);
}

#[test]
fn invalid_size_fails() {
    let data = Bytes::from_static(&[1, 2, 3]);
    let result = WhatsUpDude::decode(data);
    assert!(result.is_err());
}

#[test]
fn empty_token_fails() {
    let message = WhatsUpDude::new(1, 0, Bytes::new());
    let encoded = message.encode();
    let result = WhatsUpDude::decode(encoded);
    assert!(matches!(result, Err(FrameError::MissingAuthToken)));
}

#[test]
fn ports_are_the_documented_ones() {
    assert_eq!(DEFAULT_PORT, 40404);
    assert_eq!(DEFAULT_TCP_PORT, 40443);
}

#[test]
fn frame_header_layout_is_exact() {
    let frame = Frame {
        version: PROTOCOL_VERSION,
        frame_type: FrameType::Ping,
        flags: 0x0102,
        sequence: 0x0a0b_0c0d_0e0f_1011,
        payload: Bytes::from_static(&[0xaa, 0xbb]),
    };
    let wire = frame.encode();
    assert_eq!(wire.len(), HEADER_SIZE + 2);
    assert_eq!(wire[0], 1);
    assert_eq!(wire[1], FrameType::Ping.to_u8());
    assert_eq!(&wire[2..4], &[0x01, 0x02]);
    assert_eq!(&wire[4..8], &[0, 0, 0, 2]);
    assert_eq!(&wire[8..16], &[0x0a, 0x0b, 0x0c, 0x0d, 0x0e, 0x0f, 0x10, 0x11]);
    assert_eq!(&wire[16..], &[0xaa, 0xbb]);
}

#[test]
fn frame_type_codes_read_back() {
    for code in 0u8..=255 {
        match FrameType::try_from(code) {
            Ok(frame_type) => assert_eq!(frame_type.to_u8(), code),
            Err(error) => assert_eq!(error, FrameError::UnknownFrameType(code)),
        }
    }
}

#[test]
fn frame_faults_are_told_apart() {
    let whole = frame(FrameType::Data, 1, Bytes::from_static(b"abc")).encode();
    assert_eq!(Frame::decode(whole.slice(0..15)).unwrap_err(), FrameError::TooSmall);
    assert_eq!(Frame::decode(whole.slice(0..18)).unwrap_err(), FrameError::InvalidPayloadLength);

    let mut unknown = whole.to_vec();
    unknown[1] = 0xee;
    assert_eq!(Frame::decode_slice(&unknown).unwrap_err(), FrameError::UnknownFrameType(0xee));

    let mut large = whole.to_vec();
    let len = (MAX_PAYLOAD_SIZE as u32 + 1).to_be_bytes();
    large[4..8].copy_from_slice(&len);
    large.resize(HEADER_SIZE + MAX_PAYLOAD_SIZE + 1, 0);
    assert_eq!(Frame::decode_slice(&large).unwrap_err(), FrameError::PayloadTooLarge);

    let header: [u8; 16] = whole[..16].try_into().unwrap();
    assert_eq!(Frame::payload_len_from_header(&header), Ok(3));
    let mut too_long = header;
    too_long[4..8].copy_from_slice(&len);
    assert_eq!(Frame::payload_len_from_header(&too_long), Err(FrameError::PayloadTooLarge));
}

#[test]
fn message_faults_are_told_apart() {
    let short = Bytes::from_static(&[1, 2, 3]);
    assert_eq!(AllGoodDude::decode(short.clone()).unwrap_err(), FrameError::InvalidAllGoodDudeLength);
    assert_eq!(BackAgainDude::decode(short.clone()).unwrap_err(), FrameError::InvalidBackAgainDudeLength);
    assert_eq!(StillGoodDude::decode(short.clone()).unwrap_err(), FrameError::InvalidStillGoodDudeLength);
    assert_eq!(Data::decode(short.clone()).unwrap_err(), FrameError::InvalidDataLength);
    assert_eq!(Ping::decode(short.clone()).unwrap_err(), FrameError::InvalidPingLength);
    assert_eq!(Pong::decode(short.clone()).unwrap_err(), FrameError::InvalidPongLength);
    assert_eq!(Rekey::decode(short.clone()).unwrap_err(), FrameError::InvalidRekeyLength);
    assert_eq!(Close::decode(short.clone()).unwrap_err(), FrameError::InvalidCloseLength);
    assert_eq!(AccessDeniedDude::decode(short.clone()).unwrap_err(), FrameError::InvalidAccessDeniedDudeLength);
    assert_eq!(WhatsUpDude::decode(short).unwrap_err(), FrameError::InvalidWhatsUpDudeLength);

    let mut close = Close::new([1u8; 16], CloseReason::Replaced).encode().to_vec();
    close[16] = 77;
    assert_eq!(Close::decode(Bytes::from(close)).unwrap_err(), FrameError::UnknownCloseReason(77));

    let mut denied = AccessDeniedDude::new(DenyReason::InvalidToken, 0).encode().to_vec();
    denied[0] = 0xfe;
    assert_eq!(AccessDeniedDude::decode(Bytes::from(denied)).unwrap_err(), FrameError::UnknownDenyReason(0xfe));

    let big = Data::new([1u8; 16], 1, Bytes::from(vec![0u8; MAX_DATA_PAYLOAD_SIZE])).encode();
    let mut over = big.to_vec();
    over.push(0);
    assert!(Data::decode(big).is_ok());
    assert_eq!(Data::decode(Bytes::from(over)).unwrap_err(), FrameError::DataPayloadTooLarge);
}

#[test]
fn whats_up_token_length_is_checked() {
    let hello = WhatsUpDude::new(1, 0, Bytes::from_static(b"token")).encode();
    let mut short = hello.to_vec();
    short.pop();
    assert_eq!(WhatsUpDude::decode(Bytes::from(short)).unwrap_err(), FrameError::InvalidAuthTokenLength);

    let mut large = hello[..39].to_vec();
    large.extend_from_slice(&((MAX_AUTH_TOKEN_SIZE as u16 + 1).to_be_bytes()));
    large.extend_from_slice(&vec![7u8; MAX_AUTH_TOKEN_SIZE + 1]);
    assert_eq!(WhatsUpDude::decode(Bytes::from(large)).unwrap_err(), FrameError::AuthTokenTooLarge);
}
