use payphone::client::settings::{
    complaint, parse_transport, read_client_arguments, reality_pubkey_text, resolve_client, tls_connect_port, TransportKind,
};
use payphone::protocol::frame::{plain_frame, Frame, FrameType};
use payphone::protocol::FrameError;
use payphone::server::front::{front_route, local_plan, wants_challenge, FrontRoute};
use payphone::server::settings::{
    read_server_arguments, reality_key_text, resolve_server, session_store_path, tcp_bind_rule, TcpBind,
};
use payphone::settings::{
    file_step, load_kv_file, parse_bool_flag, ArgFault, Arguments, FileStep, Pairs, SettingsError, Sources,
};
use payphone::transport::https_front::{finish_payphone_frame, open_front, Opening};
use payphone::transport::reality::config::RealityConfigError;
use payphone::transport::reality::keys::RealityKeyError;
use payphone::transport::tls::{acme_contact, needs_reload, served, FileTimes, Served};

const KEY: &str = "000102030405060708090a0b0c0d0e0f101112131415161718191a1b1c1d1e1f";

fn words(line: &str) -> Vec<String> {
    line.split_whitespace().map(String::from).collect()
}

fn pairs(items: &[(&str, &str)]) -> Pairs {
    let mut pairs = Pairs::new();
    for (name, value) in items {
        pairs.put(name.to_string(), value.to_string());
    }
    pairs
}

fn client_args(line: &str) -> Arguments {
    match read_client_arguments(&words(line)) {
        Ok(args) => args,
        Err(error) => panic!("{}", error.message()),
    }
}

fn server_args(line: &str) -> Arguments {
    match read_server_arguments(&words(line)) {
        Ok(args) => args,
        Err(error) => panic!("{}", error.message()),
    }
}

fn sources(args: &Arguments, env: &[(&str, &str)], file: &str) -> Sources {
    Sources { options: args.options.clone(), env: pairs(env), file: load_kv_file(file) }
}

#[test]
fn settings_files_are_read() {
    let pairs = load_kv_file(
        "# comment\n[client]\nserver = \"vpn.example.org:40404\"\npayphone_obfs-PSK='secret'\nexport token = a=b\nbroken\n",
    );
    assert_eq!(pairs.get("server").as_deref(), Some("vpn.example.org:40404"));
    assert_eq!(pairs.get("obfs_psk").as_deref(), Some("secret"));
    assert_eq!(pairs.get("missing"), None);
}

#[test]
fn flags_are_read() {
    for on in ["1", "true", "ON", "Yes"] {
        assert_eq!(parse_bool_flag(on), Some(true));
    }
    for off in ["0", "False", "off", "NO"] {
        assert_eq!(parse_bool_flag(off), Some(false));
    }
    assert_eq!(parse_bool_flag("maybe"), None);
}

#[test]
fn a_missing_file_matters_only_where_it_is_named() {
    assert_eq!(file_step(false, false), FileStep::Skip);
    assert_eq!(file_step(true, false), FileStep::Missing);
    assert_eq!(file_step(false, true), FileStep::Read);
}

#[test]
fn client_arguments_are_read() {
    let args = client_args("--server=a:1 -t x.token --kill-switch --dev -h --reality-public-key k");
    assert!(args.help && args.dev && args.switch);
    assert_eq!(args.options.get("server").as_deref(), Some("a:1"));
    assert_eq!(args.options.get("token").as_deref(), Some("x.token"));
    assert_eq!(args.options.get("reality-pubkey").as_deref(), Some("k"));
    assert!(!client_args("--kill-switch=off").switch);
    let faults = [
        ("--psk", ArgFault::MissingValue, "missing value for --psk"),
        ("-s", ArgFault::MissingShortValue, "missing value for -s"),
        ("--nope x", ArgFault::UnknownOption, "unknown option --nope"),
        ("-x", ArgFault::UnknownShort, "unknown option -x"),
        ("word", ArgFault::Unexpected, "unexpected argument word"),
        ("-sh a", ArgFault::NotLast, "short option that takes a value must be last"),
        ("--kill-switch=MAYBE", ArgFault::BadFlag, "expected on/off, got maybe"),
    ];
    for (line, fault, message) in faults {
        match read_client_arguments(&words(line)) {
            Err(error) => {
                assert_eq!(error.fault, fault, "{line}");
                assert_eq!(error.message(), message);
            }
            Ok(_) => panic!("{line}"),
        }
    }
}

#[test]
fn server_arguments_are_read() {
    let args = server_args("--bind 0.0.0.0:40404 -c conf --acme-staging --acme-staging=what");
    assert!(!args.switch);
    assert_eq!(args.options.get("config").as_deref(), Some("conf"));
    assert!(matches!(read_server_arguments(&words("-hc")), Err(error) if error.fault == ArgFault::Unexpected));
}

#[test]
fn the_command_line_comes_before_the_environment_and_the_file() {
    let args = client_args("--psk from-line");
    let all = sources(&args, &[("PAYPHONE_OBFS_PSK", "from-env"), ("PAYPHONE_TOKEN", "env.token")], "psk=f\ntoken=f.token\nsession=f.session\n");
    let settings = resolve_client(&args, &all, None).unwrap_or_else(|e| panic!("{}", e.message()));
    assert_eq!(settings.psk, "from-line");
    assert_eq!(settings.token, "env.token");
    assert_eq!(settings.session, "f.session");
    assert_eq!(settings.server, "127.0.0.1:40404");
    assert_eq!(settings.transport, TransportKind::Quic);
    assert_eq!(settings.tls.server_name, "localhost");
    assert!(!settings.tls.use_webpki && !settings.kill_switch && settings.tls.reality.is_none());
}

#[test]
fn a_public_server_name_is_trusted_publicly() {
    let args = client_args("--psk p --server vpn.example.org:40404 --transport HTTPS --kill-switch");
    let settings = resolve_client(&args, &sources(&args, &[], ""), None).unwrap_or_else(|e| panic!("{}", e.message()));
    assert_eq!(settings.tls.server_name, "vpn.example.org");
    assert!(settings.tls.use_webpki && settings.kill_switch);
    assert_eq!(settings.transport, TransportKind::Tls);
}

#[test]
fn client_reality_needs_a_short_id() {
    let args = client_args(&format!("--psk p --reality-pubkey {KEY}"));
    let all = sources(&args, &[], "");
    assert_eq!(reality_pubkey_text(&all).as_deref(), Some(KEY));
    assert!(matches!(resolve_client(&args, &all, None), Err(SettingsError::NoClientShortId)));
    let args = client_args(&format!("--psk p --reality-pubkey {KEY} --reality-short-id 0a --reality-sni www.a.org:443"));
    let settings =
        resolve_client(&args, &sources(&args, &[], ""), None).unwrap_or_else(|e| panic!("{}", e.message()));
    let reality = settings.tls.reality.unwrap();
    assert_eq!(reality.public_key[31], 31);
    assert_eq!(reality.short_id, [10, 0, 0, 0, 0, 0, 0, 0]);
    assert_eq!(reality.server_name, "www.a.org");
    let args = client_args("--psk p --reality-pubkey nonsense --reality-short-id 0a");
    assert!(matches!(
        resolve_client(&args, &sources(&args, &[], ""), None),
        Err(SettingsError::RealityKey(_))
    ));
    let args = client_args("--psk p --reality-pubkey key.file --reality-short-id 0a");
    let file = vec![5u8; 32];
    assert!(resolve_client(&args, &sources(&args, &[], ""), Some(&file)).is_ok());
}

#[test]
fn client_faults_are_told_apart() {
    let args = client_args("");
    assert!(matches!(resolve_client(&args, &sources(&args, &[], ""), None), Err(SettingsError::NoPsk)));
    let args = client_args("--transport pigeon");
    assert!(matches!(resolve_client(&args, &sources(&args, &[], ""), None), Err(SettingsError::UnknownTransport)));
    assert!(parse_transport("UDP").is_ok());
    assert_eq!(tls_connect_port(40404), 40443);
    assert_eq!(tls_connect_port(9), 9);
}

#[test]
fn server_settings_are_settled() {
    let args = server_args("--psk p --tls-domain vpn.example.org --acme-staging");
    let env = [("PAYPHONE_BIND_ADDR", "0.0.0.0:1"), ("PAYPHONE_DEV_MODE", "on")];
    let settings = match resolve_server(&args, &sources(&args, &env, "dns_upstream = 9.9.9.9:53\n"), None, &None, true) {
        Ok(settings) => settings,
        Err(error) => panic!("{}", error.message()),
    };
    assert_eq!(settings.bind, "0.0.0.0:1");
    assert!(settings.dev_mode && settings.tls.acme_staging && settings.reality.is_none());
    assert_eq!(settings.tls.sans, vec!["localhost".to_string(), "vpn.example.org".to_string()]);
    assert_eq!(settings.dns_upstream.as_deref(), Some("9.9.9.9:53"));
    assert_eq!(settings.revoke_file, "auth-keys/revoked-token-ids.txt");
    assert_eq!(settings.auth_key, "auth-keys/subscription-public.key");
    assert_eq!(session_store_path(settings.session_store, true), "/app/state/sessions.bin");
    assert_eq!(session_store_path(None, false), "payphone-sessions.bin");
    let args = server_args("");
    assert!(matches!(resolve_server(&args, &sources(&args, &[], ""), None, &None, false), Err(SettingsError::NoPsk)));
}

#[test]
fn server_reality_is_settled() {
    let line = format!("--psk p --reality on --reality-dest www.a.org:443 --reality-private-key {KEY} --reality-short-id 0a,0b --tls-san vpn.b.org");
    let args = server_args(&line);
    let all = sources(&args, &[], "");
    assert_eq!(reality_key_text(&all), KEY);
    let settings = match resolve_server(&args, &all, None, &None, false) {
        Ok(settings) => settings,
        Err(error) => panic!("{}", error.message()),
    };
    let reality = settings.reality.unwrap();
    assert_eq!(reality.dest, "www.a.org:443");
    assert_eq!(reality.server_names, vec!["www.a.org".to_string()]);
    assert_eq!(reality.short_ids.len(), 2);
    assert!(reality.local_names.contains(&"vpn.b.org".to_string()));
    assert!(reality.local_names.is_sorted());
    assert_eq!(reality.max_time_diff_ms, 120_000);
    assert!(reality.post_handshake.iter().all(|lens| lens.is_empty()));

    let fault = |line: &str, short: Option<&str>| {
        let args = server_args(line);
        match resolve_server(&args, &sources(&args, &[], ""), None, &short.map(String::from), false) {
            Ok(_) => panic!("{line}"),
            Err(error) => error,
        }
    };
    assert_eq!(fault("--psk p --reality on", None), SettingsError::NoRealityDest);
    let base = format!("--psk p --reality on --reality-dest www.a.org:443 --reality-private-key {KEY}");
    assert_eq!(fault(&base, None), SettingsError::NoRealityShortId);
    assert_eq!(fault(&base, Some("")), SettingsError::NoRealityShortId);
    assert_eq!(fault(&base, Some(" \r\n\t")), SettingsError::NoRealityShortId);
    assert_eq!(fault(&base, Some("zz")), SettingsError::RealityKey(RealityKeyError::ShortIdNotHex));
    assert_eq!(fault(&base, Some(" , ")), SettingsError::RealityKey(RealityKeyError::NoShortIds));
    let bad = format!("--psk p --reality on --reality-dest [::1 --reality-private-key {KEY} --reality-short-id 0a");
    assert_eq!(fault(&bad, None), SettingsError::Reality(RealityConfigError::MissingBracket));
}

#[test]
fn blanks_around_the_short_ids_of_a_file_are_left_out() {
    let line = format!("--psk p --reality on --reality-dest www.a.org:443 --reality-private-key {KEY}");
    let args = server_args(&line);
    let file = Some(" 0a,0b\r\n".to_string());
    let settings = match resolve_server(&args, &sources(&args, &[], ""), None, &file, false) {
        Ok(settings) => settings,
        Err(error) => panic!("{}", error.message()),
    };
    assert_eq!(settings.reality.unwrap().short_ids.len(), 2);
}

#[test]
fn the_front_follows_the_udp_socket() {
    assert!(matches!(tcp_bind_rule(None, 40404), TcpBind::Port(40443)));
    assert!(matches!(tcp_bind_rule(None, 443), TcpBind::Port(443)));
    assert!(matches!(tcp_bind_rule(Some("off"), 443), TcpBind::Off));
    assert!(matches!(tcp_bind_rule(Some("False"), 443), TcpBind::Off));
    assert!(matches!(tcp_bind_rule(Some("0.0.0.0:8443"), 443), TcpBind::At(at) if at == "0.0.0.0:8443"));
}

#[test]
fn certificates_are_read_again_when_they_change() {
    let old = FileTimes { cert: Some(1), key: Some(2) };
    assert!(needs_reload(None, old));
    assert!(!needs_reload(Some(old), old));
    assert!(needs_reload(Some(old), FileTimes { cert: Some(9), key: Some(2) }));
    assert_eq!(served(true, false, false), Served::Cached);
    assert_eq!(served(true, true, true), Served::Fresh);
    assert_eq!(served(true, true, false), Served::Cached);
    assert_eq!(served(false, true, false), Served::Nothing);
    assert_eq!(acme_contact(None, "a.org"), "mailto:admin@a.org");
    assert_eq!(acme_contact(Some("me@a.org"), "a.org"), "mailto:me@a.org");
    assert_eq!(acme_contact(Some("mailto:me@a.org"), "a.org"), "mailto:me@a.org");
}

#[test]
fn connections_find_their_way() {
    assert_eq!(front_route(true, true), FrontRoute::Reality);
    assert_eq!(front_route(false, true), FrontRoute::Peek);
    assert_eq!(front_route(false, false), FrontRoute::Plain);
    assert!(!wants_challenge(b"GET / HTTP/1.1"));
    let plan = local_plan(true, false);
    assert!(!plan.challenge && plan.close);
    assert!(local_plan(true, true).challenge);
}

#[test]
fn a_stream_carries_frames() {
    let bytes = plain_frame(FrameType::Ping, 5, bytes::Bytes::from_static(b"payload"));
    let mut header = [0u8; 16];
    header.copy_from_slice(&bytes[..16]);
    assert_eq!(open_front(&header), Opening::Frame(7));
    let frame = finish_payphone_frame(&header, &bytes[16..]).unwrap();
    assert_eq!((frame.frame_type, frame.sequence), (FrameType::Ping, 5));
    assert_eq!(frame.encode(), Frame::decode(bytes.clone()).unwrap().encode());
    assert!(finish_payphone_frame(&header, &bytes[17..]).is_err());
    header[4] = 0xff;
    assert_eq!(open_front(&header), Opening::Refuse(FrameError::PayloadTooLarge));
    header[1] = 200;
    assert_eq!(open_front(&header), Opening::Refuse(FrameError::UnknownFrameType(200)));
    header[0] = b'G';
    assert_eq!(open_front(&header), Opening::Page);
}

#[test]
fn an_unknown_transport_is_named() {
    let args = client_args("--psk p --transport Pigeon");
    let all = sources(&args, &[], "");
    let error = resolve_client(&args, &all, None).err().unwrap();
    assert_eq!(complaint(&error, &all), "unknown transport pigeon; use quic or tls");
    assert_eq!(complaint(&SettingsError::NoPsk, &all), SettingsError::NoPsk.message());
}
