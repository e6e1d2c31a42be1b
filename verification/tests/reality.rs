use payphone::transport::reality::auth::{open_session_id, seal_session_id, session_id_plain, SESSION_ID_OFFSET};
use payphone::transport::reality::cert::{mint_hmac_certificate, mint_hmac_leaf, verify_hmac_certificate};
use payphone::transport::reality::config::{
    authenticate, dest_host, RealityClientConfig, RealityConfigError, RealityServerConfig, CLIENT_VERSION,
};
use payphone::transport::reality::hello::{
    extension_types, patch_server_hello_x25519, ClientHelloView, ServerHelloView, EXT_ALPN, EXT_KEY_SHARE,
    EXT_SUPPORTED_VERSIONS, GROUP_X25519_MLKEM768,
};
use payphone::transport::reality::hello_build::{
    build_client_hello_handshake, build_client_hello_record, build_server_hello_handshake, client_hello_drawn,
    client_hello_record_drawn, handshake_msg, is_grease, noise_from,
    EXT_ALPS, EXT_COMPRESS_CERTIFICATE, EXT_ECH, EXT_SIGNATURE_ALGORITHMS, MLKEM768_PUBLIC_LEN,
};
use payphone::transport::reality::keys::{
    encode_b64url, encode_hex, generate_keypair, keypair_from, parse_32_bytes, parse_short_id, parse_short_ids, public_from_private,
    RealityKeyError,
};
use payphone::transport::reality::record_detect::{RecordSpy, CCS};
use payphone::transport::reality::splice::{
    judge_hello, with_post_handshake, DestFlight, DestProbe, HelloVerdict,
};
use payphone::transport::reality::suite::{decrypt_app, encrypt_app_padded, traffic_keys, Suite};
use payphone::transport::reality::tls_client::{ClientHandshake, ClientStep};
use payphone::transport::reality::tls_messages::{encrypted_extensions_msg, TlsError};
use payphone::transport::reality::tls_server::{answer_hello, ServerStep};
use payphone::transport::reality::tls_stream::{RecordAssembler, Tls13State};

fn u24(bytes: &[u8]) -> Option<usize> {
    Some(((*bytes.first()? as usize) << 16) | ((*bytes.get(1)? as usize) << 8) | *bytes.get(2)? as usize)
}

fn u16_at(bytes: &[u8], at: usize) -> Option<usize> {
    Some(((*bytes.get(at)? as usize) << 8) | *bytes.get(at + 1)? as usize)
}

fn unix_now() -> u64 {
    std::time::SystemTime::now().duration_since(std::time::UNIX_EPOCH).unwrap().as_secs()
}

fn test_keys() -> ([u8; 32], [u8; 32], [u8; 8]) {
    let pair = generate_keypair().unwrap();
    let short = parse_short_id("aabbccdd").unwrap();
    (pair.private, pair.public, short)
}

fn extensions_of(handshake: &[u8]) -> Option<Vec<(u16, Vec<u8>)>> {
    let body_len = u24(&handshake[1..4])?;
    let body = handshake.get(4..4 + body_len)?;
    let mut i = 34usize;
    let sid_len = *body.get(i)? as usize;
    i += 1 + sid_len;
    let cs_len = u16_at(body, i)?;
    i += 2 + cs_len;
    let comp_len = *body.get(i)? as usize;
    i += 1 + comp_len;
    let ext_len = u16_at(body, i)?;
    i += 2;
    let mut exts = body.get(i..i + ext_len)?;
    let mut out = Vec::new();
    while exts.len() >= 4 {
        let typ = u16_at(exts, 0)? as u16;
        let len = u16_at(exts, 2)?;
        out.push((typ, exts.get(4..4 + len)?.to_vec()));
        exts = exts.get(4 + len..)?;
    }
    Some(out)
}

fn signature_algorithms(handshake: &[u8]) -> Option<Vec<u16>> {
    let data = extensions_of(handshake)?.into_iter().find(|(typ, _)| *typ == EXT_SIGNATURE_ALGORITHMS)?.1;
    let list_len = u16_at(&data, 0)?;
    let list = data.get(2..2 + list_len)?;
    let mut out = Vec::new();
    let mut i = 0;
    while i + 2 <= list.len() {
        out.push(u16_at(list, i)? as u16);
        i += 2;
    }
    Some(out)
}

#[test]
fn hmac_signature_roundtrip() {
    let auth_key = [0x42u8; 32];
    let (cert, _key) = mint_hmac_certificate(&auth_key, "www.microsoft.com").unwrap();
    assert!(verify_hmac_certificate(&auth_key, cert.as_ref()));
    assert!(!verify_hmac_certificate(&[0u8; 32], cert.as_ref()));
}

#[test]
fn chrome_hello_session_id_stays_at_offset_39() {
    let random = [7u8; 32];
    let zeros = [0u8; 32];
    let public = [9u8; 32];
    let hello = build_client_hello_handshake(&random, &zeros, "www.microsoft.com", &public).unwrap();
    assert_eq!(hello[SESSION_ID_OFFSET..SESSION_ID_OFFSET + 32], zeros);
    assert_eq!(hello[38], 32);
}

#[test]
fn chrome_hello_parses_sni_and_x25519() {
    let random = [3u8; 32];
    let sid = [1u8; 32];
    let public = [0x11u8; 32];
    let hello = build_client_hello_handshake(&random, &sid, "www.microsoft.com", &public).unwrap();
    let mut record = vec![0x16, 0x03, 0x01, 0, 0];
    let len = hello.len() as u16;
    record[3..5].copy_from_slice(&len.to_be_bytes());
    record.extend_from_slice(&hello);

    let view = ClientHelloView::parse(&record).expect("parse");
    assert_eq!(view.sni.as_deref(), Some("www.microsoft.com"));
    assert_eq!(view.x25519_public, Some(public));
    assert_eq!(view.session_id, sid);
    assert_eq!(view.alpn, vec![b"h2".to_vec(), b"http/1.1".to_vec()]);
    assert_eq!(view.alpn_class(), 2);
}

#[test]
fn alpn_class_matches_xray_probe_buckets() {
    let view = |alpn: Vec<Vec<u8>>| ClientHelloView {
        random: [0u8; 32],
        session_id: Vec::new(),
        sni: None,
        x25519_public: None,
        alpn,
    };
    assert_eq!(view(vec![]).alpn_class(), 0);
    assert_eq!(view(vec![b"http/1.1".to_vec()]).alpn_class(), 1);
    assert_eq!(view(vec![b"h2".to_vec(), b"http/1.1".to_vec()]).alpn_class(), 2);
    assert!(view(vec![b"acme-tls/1".to_vec()]).has_acme_alpn());
    assert!(!view(vec![b"h2".to_vec()]).has_acme_alpn());
}

#[test]
fn chrome_hello_looks_like_chrome_131() {
    let hello = build_client_hello_handshake(&[0u8; 32], &[0u8; 32], "www.microsoft.com", &[2u8; 32]).unwrap();
    let types = extension_types(&hello).expect("exts");
    assert!(is_grease(types[0]), "first extension is GREASE");
    assert!(is_grease(*types.last().unwrap()), "last extension is GREASE");
    assert!(types.contains(&EXT_ECH));
    assert!(types.contains(&EXT_ALPN));
    assert!(types.contains(&EXT_KEY_SHARE));
    assert!(types.contains(&EXT_ALPS));
    assert!(types.contains(&EXT_COMPRESS_CERTIFICATE));
    assert_eq!(
        signature_algorithms(&hello).as_deref(),
        Some([0x0403, 0x0804, 0x0401, 0x0503, 0x0805, 0x0501, 0x0806, 0x0601].as_slice())
    );

    let body_len = u24(&hello[1..4]).unwrap();
    let body = &hello[4..4 + body_len];
    let cs_len = u16::from_be_bytes(body[67..69].try_into().unwrap()) as usize;
    let first_suite = u16::from_be_bytes(body[69..71].try_into().unwrap());
    assert!(is_grease(first_suite));
    assert_eq!(cs_len, 32);
}

fn parse_hello_key_shares(hello: &[u8]) -> Option<Vec<(u16, Vec<u8>)>> {
    let data = extensions_of(hello)?.into_iter().find(|(typ, _)| *typ == EXT_KEY_SHARE)?.1;
    let list_len = u16_at(&data, 0)?;
    let mut shares = data.get(2..2 + list_len)?;
    let mut out = Vec::new();
    while shares.len() >= 4 {
        let group = u16_at(shares, 0)? as u16;
        let key_len = u16_at(shares, 2)?;
        out.push((group, shares.get(4..4 + key_len)?.to_vec()));
        shares = shares.get(4 + key_len..)?;
    }
    Some(out)
}

fn mlkem768_from_hello(hello: &[u8]) -> Option<[u8; MLKEM768_PUBLIC_LEN]> {
    parse_hello_key_shares(hello)?.into_iter().find_map(|(group, key)| {
        if group == GROUP_X25519_MLKEM768 && key.len() == MLKEM768_PUBLIC_LEN + 32 {
            key[..MLKEM768_PUBLIC_LEN].try_into().ok()
        } else {
            None
        }
    })
}

#[test]
fn chrome_hello_mlkem_public_is_valid() {
    let hello = build_client_hello_handshake(&[0u8; 32], &[0u8; 32], "www.microsoft.com", &[2u8; 32]).unwrap();
    let pk_bytes = mlkem768_from_hello(&hello).expect("X25519MLKEM768 share");
    let pk = libcrux_ml_kem::mlkem768::MlKem768PublicKey::from(pk_bytes);
    assert!(libcrux_ml_kem::mlkem768::validate_public_key(&pk));

    let again = build_client_hello_handshake(&[1u8; 32], &[0u8; 32], "www.microsoft.com", &[2u8; 32]).unwrap();
    let other = mlkem768_from_hello(&again).expect("second share");
    assert_ne!(pk_bytes, other);
}

#[test]
fn dest_server_hello_patch_keeps_ja3s() {
    let dest_pub = [0xAAu8; 32];
    let ours = [0xBBu8; 32];
    let mut hello = build_server_hello_handshake(
        &[1u8; 32],
        &[2u8; 32],
        0x1302,
        &dest_pub,
        &[EXT_KEY_SHARE, EXT_SUPPORTED_VERSIONS],
    );
    let before = ServerHelloView::parse(&hello).unwrap();
    assert_eq!(before.cipher, 0x1302);
    assert_eq!(before.extensions, vec![EXT_KEY_SHARE, EXT_SUPPORTED_VERSIONS]);
    assert_eq!(before.x25519_public, Some(dest_pub));

    assert!(patch_server_hello_x25519(&mut hello, &ours));
    let after = ServerHelloView::parse(&hello).unwrap();
    assert_eq!(before.ja3s(), after.ja3s());
    assert_eq!(after.x25519_public, Some(ours));
    assert_eq!(after.random, before.random);
}

#[test]
fn hex_and_b64_roundtrip() {
    let key = [0x11u8; 32];
    let hex = encode_hex(&key);
    assert_eq!(parse_32_bytes(&hex).unwrap(), key);

    let b64 = encode_b64url(&key);
    assert_eq!(parse_32_bytes(&b64).unwrap(), key);
}

#[test]
fn short_id_pads() {
    assert_eq!(parse_short_id("aa").unwrap()[0], 0xaa);
    assert_eq!(&parse_short_id("aabbccdd").unwrap()[..4], &[0xaa, 0xbb, 0xcc, 0xdd]);
}

#[test]
fn key_faults_are_told_apart() {
    assert_eq!(parse_32_bytes(""), Err(RealityKeyError::Empty));
    assert_eq!(parse_32_bytes("!!"), Err(RealityKeyError::NotHexOrBase64));
    assert_eq!(parse_32_bytes("AAAA"), Err(RealityKeyError::WrongLength(3)));
    assert_eq!(parse_short_id("zz"), Err(RealityKeyError::ShortIdNotHex));
    assert_eq!(parse_short_id("aabbccddeeff001122"), Err(RealityKeyError::ShortIdLength));
    assert_eq!(parse_short_ids(" , "), Err(RealityKeyError::NoShortIds));
    assert_eq!(parse_short_ids("aa,bb").map(|ids| ids.len()), Ok(2));
}

#[test]
fn x25519_public_matches_the_known_vector() {
    let private: [u8; 32] = [
        0x77, 0x07, 0x6d, 0x0a, 0x73, 0x18, 0xa5, 0x7d, 0x3c, 0x16, 0xc1, 0x72, 0x51, 0xb2, 0x66, 0x45, 0xdf, 0x4c,
        0x2f, 0x92, 0xeb, 0xc0, 0x99, 0x2a, 0xc1, 0x77, 0xfb, 0xa5, 0x1d, 0xb9, 0x2c, 0x2a,
    ];
    let public: [u8; 32] = [
        0xf8, 0xa9, 0x53, 0x5a, 0x2d, 0x2f, 0xf6, 0x05, 0xe8, 0xe1, 0x44, 0xd5, 0x4f, 0x4e, 0xf5, 0xc6, 0x23, 0x13,
        0xa2, 0x05, 0x5d, 0xbb, 0x21, 0xfd, 0xdd, 0x3f, 0xd9, 0xc2, 0x99, 0xeb, 0x01, 0x5d,
    ];
    assert_eq!(public_from_private(&private), public);
    let pair = keypair_from(private);
    assert_eq!((pair.private, pair.public), (private, public));
}

#[test]
fn spy_counts_app_records_after_ccs() {
    let mut spy = RecordSpy::new();
    spy.note_write(&CCS);
    let mut wire = fake_tls_record(0x17, 80);
    wire.extend_from_slice(&fake_tls_record(0x17, 120));
    for piece in wire.chunks(33) {
        spy.note_read(piece);
    }
    assert_eq!(spy.lens(), vec![80, 120]);
}

#[test]
fn spy_ignores_what_comes_before_ccs() {
    let mut spy = RecordSpy::new();
    spy.note_read(&fake_tls_record(0x17, 80));
    spy.note_write(&CCS[..3]);
    spy.note_write(&CCS[3..]);
    spy.note_read(&fake_tls_record(0x17, 90));
    assert_eq!(spy.lens(), vec![90]);
}

#[test]
fn padded_record_hits_dest_length() {
    let keys = traffic_keys(Suite::Aes128GcmSha256, &[0x11u8; 32]);
    let record = encrypt_app_padded(&keys, 0x16, b"hello", Some(600));
    assert_eq!(record.len(), 600);
    assert_eq!(record[0], 0x17);
    let (inner, content) = decrypt_app(&keys, &record[5..]).unwrap();
    assert_eq!(inner, 0x16);
    assert_eq!(content, b"hello");
}

#[test]
fn encrypted_extensions_echoes_h2() {
    let msg = encrypted_extensions_msg(&[b"h2".to_vec(), b"http/1.1".to_vec()]);
    assert_eq!(msg[0], 8);
    assert!(msg.windows(2).any(|w| w == b"h2"));
    assert!(!msg.windows(8).any(|w| w == b"http/1.1"));
}

#[test]
fn encrypted_extensions_empty_without_alpn() {
    let msg = encrypted_extensions_msg(&[]);
    assert_eq!(msg, handshake_msg(8, &[0, 0]));
}

#[test]
fn encrypted_extensions_echoes_http11_when_no_h2() {
    let msg = encrypted_extensions_msg(&[b"http/1.1".to_vec()]);
    assert!(msg.windows(8).any(|w| w == b"http/1.1"));
}

#[test]
fn session_id_roundtrip() {
    let (private, public, short) = test_keys();
    let client = generate_keypair().unwrap();
    let mut random = [0u8; 32];
    random[0] = 7;
    random[20] = 9;

    let mut handshake = vec![0u8; 80];
    handshake[0] = 0x01;
    handshake[6..38].copy_from_slice(&random);
    handshake[38] = 32;

    let plain = session_id_plain(CLIENT_VERSION, 1_700_000_000, short);
    let sealed = seal_session_id(&client.private, &public, &random, &plain, &handshake);
    handshake[39..71].copy_from_slice(&sealed);

    let opened = open_session_id(&private, &client.public, &random, &sealed, &handshake).expect("open");
    assert_eq!(opened, plain);
    handshake[39..71].copy_from_slice(&[0x77; 32]);
    assert_eq!(open_session_id(&private, &client.public, &random, &sealed, &handshake), Some(plain));
    assert_eq!(open_session_id(&private, &client.public, &random, &sealed[1..], &handshake), None);
    assert_eq!(open_session_id(&private, &client.public, &random, &sealed, &handshake[..70]), None);
}

#[test]
fn dest_host_splits_port() {
    assert_eq!(dest_host("www.microsoft.com:443").unwrap(), "www.microsoft.com");
    assert_eq!(dest_host("[::1]:443").unwrap(), "::1");
}

#[test]
fn dest_faults_are_told_apart() {
    assert_eq!(dest_host("  "), Err(RealityConfigError::BlankDest));
    assert_eq!(dest_host("[::1:443"), Err(RealityConfigError::MissingBracket));
    assert_eq!(RealityServerConfig::new("a:443".into(), [1u8; 32], vec![]).err(), Some(RealityConfigError::NoShortId));
    assert_eq!(
        RealityServerConfig::new("".into(), [1u8; 32], vec![[0u8; 8]]).err(),
        Some(RealityConfigError::NoDest)
    );
}

fn fake_tls_record(typ: u8, total_len: usize) -> Vec<u8> {
    assert!(total_len >= 5);
    let body = total_len - 5;
    let mut record = vec![typ, 0x03, 0x03, (body >> 8) as u8, body as u8];
    record.resize(total_len, 0);
    record
}

#[test]
fn dest_flight_pad_rules() {
    let combined = DestFlight { encrypted_record_lens: vec![1200, 180], ..DestFlight::default() };
    assert_eq!(combined.handshake_pad(), Some(1200));
    assert!(combined.split_pads().is_none());
    assert_eq!(combined.extra_pads(), &[180]);

    let split = DestFlight { encrypted_record_lens: vec![51, 800, 120], ..DestFlight::default() };
    assert!(split.handshake_pad().is_none());
    assert_eq!(split.split_pads(), Some([Some(51), Some(800), Some(120), None]));
    assert!(split.extra_pads().is_empty());

    let split_nst = DestFlight { encrypted_record_lens: vec![51, 800, 120, 60, 180], ..DestFlight::default() };
    assert_eq!(split_nst.split_pads(), Some([Some(51), Some(800), Some(120), Some(60)]));
    assert_eq!(split_nst.extra_pads(), &[180]);
}

/// The whole records in a run of bytes.
fn records_in(bytes: &[u8]) -> Vec<(u8, Vec<u8>)> {
    let mut assembler = RecordAssembler::default();
    let mut out = Vec::new();
    let mut at = 0;
    while at < bytes.len() {
        let needed = assembler.needed().unwrap();
        let end = (at + needed).min(bytes.len());
        if let Some(record) = assembler.feed(&bytes[at..end]).unwrap() {
            out.push(record);
        }
        at = end;
    }
    out
}

/// What the probe makes of a site that answers with these records.
fn dest_flight(cipher: u16, order: &[u16], tail: &[Vec<u8>], post: Vec<usize>) -> Option<DestFlight> {
    let sh = build_server_hello_handshake(&[3u8; 32], &[4u8; 32], cipher, &[0x11u8; 32], order);
    let mut record = vec![0x16, 0x03, 0x03];
    record.extend_from_slice(&(sh.len() as u16).to_be_bytes());
    record.extend_from_slice(&sh);
    let mut probe = DestProbe::begin(&record)?;
    for record in tail {
        if probe.wait_ms().is_none() || !probe.note(record) {
            break;
        }
    }
    with_post_handshake(Some(probe.finish()), post)
}

/// Sends `text` from one side to the other.
fn carry(from: &mut Tls13State, to: &mut Tls13State, text: &[u8]) -> Vec<u8> {
    from.queue(text);
    let wire = from.to_send().to_vec();
    assert_eq!(from.wrote(wire.len()).unwrap(), Some(text.len()));
    for (typ, body) in records_in(&wire) {
        to.on_record(typ, &body).unwrap();
    }
    to.read(64)
}

/// Runs the handshake of an authenticated client against the server, with
/// the site's flight, then a ping and a pong.
fn handshake_with(dest: Option<DestFlight>) {
    let (private, public, short) = test_keys();
    let server_cfg = RealityServerConfig::new("localhost:443".into(), private, vec![short]).unwrap();
    let client_cfg = RealityClientConfig { public_key: public, short_id: short, server_name: "localhost".into() };

    let (mut client, hello) = ClientHandshake::start(&client_cfg, None).unwrap();
    let (auth_key, server_name) = match judge_hello(&hello, &server_cfg, unix_now()) {
        HelloVerdict::Vpn { auth_key, server_name, alpn_class } => {
            assert_eq!(alpn_class, 2);
            (auth_key, server_name)
        }
        _ => panic!("expected vpn accept"),
    };
    assert_eq!(server_name, "localhost");

    let ephemeral = generate_keypair().unwrap();
    let dest_hello = dest.as_ref().map(|flight| flight.server_hello.as_slice());
    let (talk, first) = answer_hello(hello[0], &hello[5..], &ephemeral.private, &[6u8; 32], dest_hello).unwrap();
    let leaf = mint_hmac_leaf(&auth_key, &server_name).unwrap();
    let (mut wait, second) = talk.flight(&leaf, dest.as_ref()).unwrap();

    let mut done = None;
    let mut wire = first;
    wire.extend_from_slice(&second);
    let mut late = Vec::new();
    for (typ, body) in records_in(&wire) {
        if done.is_some() {
            late.push((typ, body));
            continue;
        }
        match client.on_record(typ, &body).unwrap() {
            ClientStep::More => {}
            ClientStep::Done { out, send, recv } => done = Some((out, send, recv)),
        }
    }
    let (out, send, recv) = done.expect("client finished");
    let mut client = Tls13State::new(send, recv);

    let mut accepted = None;
    for (typ, body) in records_in(&out) {
        match wait.on_record(typ, &body).unwrap() {
            ServerStep::More => {}
            ServerStep::Done { out, send, recv } => accepted = Some((out, send, recv)),
        }
    }
    let (post, send, recv) = accepted.expect("server finished");
    let mut server = Tls13State::new(send, recv);
    late.extend(records_in(&post));
    for (typ, body) in late {
        client.on_record(typ, &body).unwrap();
    }
    assert!(!client.has_unread());

    assert_eq!(carry(&mut client, &mut server, b"ping"), b"ping");
    assert_eq!(carry(&mut server, &mut client, b"pong"), b"pong");
}

#[test]
fn authenticated_hello_completes_tls13() {
    handshake_with(None);
}

#[test]
fn authenticated_hello_matches_dest_ja3s() {
    let flight = dest_flight(0x1302, &[51, 43], &[], Vec::new()).expect("dest ServerHello");
    let view = ServerHelloView::parse(&flight.server_hello).unwrap();
    assert_eq!(view.ja3s(), (0x0303, 0x1302, vec![51, 43]));
    assert!(flight.handshake_pad().is_none());
    handshake_with(Some(flight));
}

#[test]
fn authenticated_hello_pads_dest_encrypted_tail() {
    let tail = [
        vec![0x14, 0x03, 0x03, 0x00, 0x01, 0x01],
        fake_tls_record(0x17, 1200),
        fake_tls_record(0x17, 180),
    ];
    let flight = dest_flight(0x1301, &[43, 51], &tail, Vec::new()).expect("dest flight");
    assert_eq!(flight.handshake_pad(), Some(1200));
    assert_eq!(flight.extra_pads(), &[180]);
    handshake_with(Some(flight));
}

#[test]
fn authenticated_hello_splits_dest_encrypted_tail() {
    let mut tail = vec![vec![0x14, 0x03, 0x03, 0x00, 0x01, 0x01]];
    for len in [80usize, 900, 200, 100, 180] {
        tail.push(fake_tls_record(0x17, len));
    }
    let flight = dest_flight(0x1301, &[43, 51], &tail, Vec::new()).expect("dest flight");
    assert!(flight.handshake_pad().is_none());
    assert_eq!(flight.split_pads(), Some([Some(80), Some(900), Some(200), Some(100)]));
    assert_eq!(flight.extra_pads(), &[180]);
    handshake_with(Some(flight));
}

#[test]
fn authenticated_hello_skips_post_handshake_dummies() {
    let flight = dest_flight(0x1301, &[43, 51], &[], vec![140, 90]).expect("dest flight");
    assert_eq!(flight.post_handshake_pads(), &[140, 90]);
    handshake_with(Some(flight));
}

#[test]
fn probe_is_spliced_to_dest() {
    let (private, _, short) = test_keys();
    let mut server_cfg = RealityServerConfig::new("127.0.0.1:9".into(), private, vec![short]).unwrap();
    server_cfg.server_names.clear();
    let probe = [0x16, 0x03, 0x01, 0x00, 0x01, 0x00];
    assert!(matches!(judge_hello(&probe, &server_cfg, unix_now()), HelloVerdict::Splice));
}

#[test]
fn our_name_stays_local_instead_of_splice() {
    let (private, _, short) = test_keys();
    let mut server_cfg = RealityServerConfig::new("127.0.0.1:9".into(), private, vec![short]).unwrap();
    server_cfg.server_names.clear();
    server_cfg.local_names = vec!["vpn.example.com".into()];
    let hello = build_client_hello_record(&[9u8; 32], &[8u8; 32], "vpn.example.com", &[7u8; 32]).unwrap();
    assert!(matches!(judge_hello(&hello, &server_cfg, unix_now()), HelloVerdict::Local { acme: false }));
}

#[test]
fn a_client_with_another_short_id_is_not_let_in() {
    let (private, public, short) = test_keys();
    let server_cfg = RealityServerConfig::new("localhost:443".into(), private, vec![short]).unwrap();
    let other = RealityClientConfig { public_key: public, short_id: [1u8; 8], server_name: "localhost".into() };
    let (_, hello) = ClientHandshake::start(&other, None).unwrap();
    assert!(authenticate(&hello, &server_cfg).is_err());
    assert!(matches!(judge_hello(&hello, &server_cfg, unix_now()), HelloVerdict::Splice));
}

#[test]
fn a_leaf_for_another_key_is_refused() {
    let (private, public, short) = test_keys();
    let server_cfg = RealityServerConfig::new("localhost:443".into(), private, vec![short]).unwrap();
    let client_cfg = RealityClientConfig { public_key: public, short_id: short, server_name: "localhost".into() };
    let (mut client, hello) = ClientHandshake::start(&client_cfg, None).unwrap();
    assert!(authenticate(&hello, &server_cfg).is_ok());
    let ephemeral = generate_keypair().unwrap();
    let (talk, first) = answer_hello(hello[0], &hello[5..], &ephemeral.private, &[6u8; 32], None).unwrap();
    let leaf = mint_hmac_leaf(&[0u8; 32], "localhost").unwrap();
    let (_, second) = talk.flight(&leaf, None).unwrap();
    let mut wire = first;
    wire.extend_from_slice(&second);
    let mut refused = None;
    for (typ, body) in records_in(&wire) {
        if let Err(error) = client.on_record(typ, &body) {
            refused = Some(error);
            break;
        }
    }
    assert_eq!(refused, Some(TlsError::WrongCertificate));
}

#[test]
fn a_hello_is_made_of_what_was_drawn() {
    let noise = noise_from([0x21, 0x35], [1; 64], [2; 32], [3, 4], [5; 240], [6; 16]);
    assert_eq!((noise.first_grease, noise.last_grease), (0x21, 0x35));
    assert_eq!((noise.ech_size, noise.ech_config), (3, 4));
    let hello = client_hello_drawn(&[7; 32], &[8; 32], "example.com", &[9; 32], Some(noise)).unwrap();
    let types = extension_types(&hello).unwrap();
    assert_eq!(types.len(), 18);
    assert_eq!((types[0], types[17]), (0x1a1a, 0x5a5a));
    let mut middle = types[1..17].to_vec();
    middle.sort();
    assert_eq!(middle, [0, 5, 10, 11, 13, 16, 18, 23, 27, 35, 43, 45, 51, 17513, 0xfe0d, 0xff01]);
    assert_eq!(hello.len(), 1562 + 11 + 240);
    assert_eq!(u24(&hello[1..]), Some(hello.len() - 4));
    assert_eq!((&hello[4..6], &hello[6..38], hello[38]), (&[3u8, 3][..], &[7u8; 32][..], 32));
    assert_eq!((&hello[39..71], &hello[71..73]), (&[8u8; 32][..], &[0u8, 32][..]));
    assert!(is_grease(u16::from_be_bytes([hello[73], hello[74]])));
    assert_eq!(hello[75..81], [0x13, 1, 0x13, 2, 0x13, 3]);
    assert_eq!(hello[105..107], [1, 0]);
    assert_eq!(u16_at(&hello, 107), Some(hello.len() - 109));
    let record = client_hello_record_drawn(&[7; 32], &[8; 32], "example.com", &[9; 32], Some(noise)).unwrap();
    assert_eq!(record[5..], hello[..]);
    let view = ClientHelloView::parse(&record).unwrap();
    assert_eq!((view.sni.as_deref(), view.x25519_public), (Some("example.com"), Some([9; 32])));
    let mut longer = record.clone();
    longer.extend_from_slice(&[1, 2, 3]);
    let view = ClientHelloView::parse(&longer).unwrap();
    assert_eq!((view.sni.as_deref(), view.x25519_public), (Some("example.com"), Some([9; 32])));
    assert!(client_hello_drawn(&[7; 32], &[8; 32], "example.com", &[9; 32], None).is_err());
    assert!(client_hello_record_drawn(&[7; 32], &[8; 32], "example.com", &[9; 32], None).is_err());
}

#[test]
fn a_forged_record_does_not_count() {
    let mut sender = traffic_keys(Suite::ChaCha20Poly1305Sha256, &[0x22u8; 32]);
    let mut receiver = sender;
    let first = sender.encrypt(0x17, b"one");
    let second = sender.encrypt_padded(0x17, b"two", Some(99));
    assert_eq!(sender.seq, 2);
    let mut forged = first.clone();
    forged[9] ^= 1;
    assert!(receiver.decrypt(&forged[5..]).is_err());
    assert_eq!(receiver.seq, 0);
    assert_eq!(receiver.decrypt(&first[5..]).unwrap(), (0x17, b"one".to_vec()));
    assert!(receiver.decrypt(&first[5..]).is_err());
    assert_eq!(receiver.decrypt(&second[5..]).unwrap(), (0x17, b"two".to_vec()));
    assert_eq!(receiver.seq, sender.seq);
}
