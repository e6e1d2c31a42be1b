//! The client's settings.

use vstd::prelude::*;

use crate::protocol::{DEFAULT_PORT, DEFAULT_TCP_PORT};
use crate::settings::{
    is_on, key_given, no_arguments, or_text, pick_psk, pick_three, pick_three_or, places, psk_places, switched_on,
    take_key, text_of, with_words, ArgError, ArgSpec, Arguments, Place, SettingsError, Sources, Vocabulary, Words,
};
use crate::text::{chars_of, joined, lower_all, lowered, spells, string_of, string_views, text};
use crate::transport::identity::{
    hostname_from_addr, hostname_in, is_public, looks_like_public_dns_name, public_name, says_public, ClientTlsConfig,
    CERT_PATH, SERVER_NAME,
};
use crate::transport::reality::config::{dest_host, host_of, RealityClientConfig};
use crate::transport::reality::keys::{parse_short_id, short_id_in, RealityKeyError};

verus! {

// ---------------------------------------------------------------------------
// The command line
// ---------------------------------------------------------------------------

pub open spec fn client_words() -> Words {
    Words {
        options: seq![
            "server"@,
            "tcp-server"@,
            "transport"@,
            "psk"@,
            "token"@,
            "session"@,
            "sni"@,
            "tls-pin"@,
            "tls-ca"@,
            "reality-pubkey"@,
            "reality-short-id"@,
            "reality-sni"@,
            "config"@,
        ],
        aliases: seq![("reality-public-key"@, "reality-pubkey"@)],
        switch: "kill-switch"@,
        strict: true,
        shorts: seq![('s', "server"@), ('t', "token"@), ('c', "config"@)],
        clusters: true,
    }
}

fn client_vocabulary() -> (words: Vocabulary)
    ensures
        words@ == client_words(),
{
    let mut options: Vec<&'static str> = Vec::new();
    options.push("server");
    options.push("tcp-server");
    options.push("transport");
    options.push("psk");
    options.push("token");
    options.push("session");
    options.push("sni");
    options.push("tls-pin");
    options.push("tls-ca");
    options.push("reality-pubkey");
    options.push("reality-short-id");
    options.push("reality-sni");
    options.push("config");
    let mut aliases: Vec<(&'static str, &'static str)> = Vec::new();
    aliases.push(("reality-public-key", "reality-pubkey"));
    let mut shorts: Vec<(char, &'static str)> = Vec::new();
    shorts.push(('s', "server"));
    shorts.push(('t', "token"));
    shorts.push(('c', "config"));
    let words = Vocabulary { options, aliases, switch: "kill-switch", strict: true, shorts, clusters: true };
    assert(words@.options =~= client_words().options);
    assert(words@.aliases =~= client_words().aliases);
    assert(words@.shorts =~= client_words().shorts);
    words
}

/// Reads the client's command line.
pub fn read_client_arguments(input: &Vec<String>) -> (out: Result<Arguments, ArgError>)
    ensures
        match out {
            Ok(args) => with_words(client_words(), no_arguments(), string_views(input@)) == ArgSpec::Ok(args@),
            Err(error) => with_words(client_words(), no_arguments(), string_views(input@)) == ArgSpec::Err(
                (error.fault, error.word@),
            ),
        },
{
    client_vocabulary().read(input)
}

// ---------------------------------------------------------------------------
// The settings
// ---------------------------------------------------------------------------

#[derive(Clone, Copy, Debug, PartialEq, Eq, Structural)]
pub enum TransportKind {
    Quic,
    Tls,
}

pub struct ClientSettings {
    pub server: String,
    pub tcp_server: Option<String>,
    pub transport: TransportKind,
    pub psk: String,
    pub token: String,
    pub session: String,
    pub tls: ClientTlsConfig,
    pub dev_mode: bool,
    pub kill_switch: bool,
}

pub const DEFAULT_SERVER: &'static str = "127.0.0.1:40404";

pub const DEFAULT_TRANSPORT: &'static str = "quic";

pub const DEFAULT_TOKEN: &'static str = "subscription.token";

pub const DEFAULT_SESSION: &'static str = ".payphone-session";

/// `quic` or `udp`; `tls`, `https` or `tcp`; in any case.
pub open spec fn transport_in(value: Seq<char>) -> Option<TransportKind> {
    let value = lower_all(value);
    if value == "quic"@ || value == "udp"@ {
        Some(TransportKind::Quic)
    } else if value == "tls"@ || value == "https"@ || value == "tcp"@ {
        Some(TransportKind::Tls)
    } else {
        None
    }
}

pub fn parse_transport(value: &str) -> (kind: Result<TransportKind, SettingsError>)
    ensures
        match transport_in(value@) {
            Some(known) => kind == Ok::<TransportKind, SettingsError>(known),
            None => kind == Err::<TransportKind, SettingsError>(SettingsError::UnknownTransport),
        },
{
    let value = lowered(&chars_of(value));
    if spells(&value, "quic") || spells(&value, "udp") {
        Ok(TransportKind::Quic)
    } else if spells(&value, "tls") || spells(&value, "https") || spells(&value, "tcp") {
        Ok(TransportKind::Tls)
    } else {
        Err(SettingsError::UnknownTransport)
    }
}

pub open spec fn server_places() -> Seq<Place> {
    seq![
        Place::Option("server"),
        Place::Env("PAYPHONE_SERVER_ADDR"),
        Place::File("server"),
        Place::File("server_addr"),
    ]
}

pub open spec fn sni_places() -> Seq<Place> {
    seq![
        Place::Option("sni"),
        Place::Env("PAYPHONE_SERVER_NAME"),
        Place::File("sni"),
        Place::File("server_name"),
    ]
}

pub open spec fn pin_places() -> Seq<Place> {
    seq![
        Place::Option("tls-pin"),
        Place::Env("PAYPHONE_TLS_PIN"),
        Place::Env("PAYPHONE_TLS_CERT"),
        Place::File("tls_pin"),
        Place::File("tls_cert"),
    ]
}

pub open spec fn reality_key_places() -> Seq<Place> {
    seq![
        Place::Option("reality-pubkey"),
        Place::Env("PAYPHONE_REALITY_PUBLIC_KEY"),
        Place::File("reality_public_key"),
        Place::File("reality_pubkey"),
    ]
}

pub open spec fn reality_sni_places() -> Seq<Place> {
    seq![
        Place::Option("reality-sni"),
        Place::Env("PAYPHONE_REALITY_SNI"),
        Place::File("reality_sni"),
        Place::Option("sni"),
        Place::Env("PAYPHONE_SERVER_NAME"),
    ]
}

pub open spec fn server_of(sources: Sources) -> Seq<char> {
    or_text(sources.picked(server_places()), DEFAULT_SERVER@)
}

/// The name that the server goes by: a setting, or the host of its address
/// where that is a public name.
pub open spec fn sni_of(sources: Sources) -> Seq<char> {
    match sources.picked(sni_places()) {
        Some(name) => name,
        None => match hostname_in(server_of(sources)) {
            Some(host) => if public_name(host) {
                host
            } else {
                SERVER_NAME@
            },
            None => SERVER_NAME@,
        },
    }
}

/// Whether public authorities are trusted: a setting, or that the server has
/// a public name.
pub open spec fn webpki_of(sources: Sources) -> bool {
    match sources.picked(places("tls-ca", "PAYPHONE_TLS_CA", "tls_ca")) {
        Some(value) => says_public(value),
        None => public_name(sni_of(sources)),
    }
}

/// The name in a REALITY hello: without the port, where it has one.
pub open spec fn reality_sni_of(sources: Sources) -> Seq<char> {
    let name = or_text(sources.picked(reality_sni_places()), sni_of(sources));
    match host_of(name) {
        Ok(host) => host,
        Err(_) => name,
    }
}

/// The transport that is asked for, as it is written.
pub open spec fn transport_text(sources: Sources) -> Seq<char> {
    or_text(sources.picked(places("transport", "PAYPHONE_TRANSPORT", "transport")), DEFAULT_TRANSPORT@)
}

/// What is said of an error in these settings. A transport that is not known
/// is named.
pub open spec fn complaint_of(error: SettingsError, sources: Sources) -> Seq<char> {
    match error {
        SettingsError::UnknownTransport => "unknown transport "@ + lower_all(transport_text(sources))
            + "; use quic or tls"@,
        _ => error.message_spec(),
    }
}

pub fn complaint(error: &SettingsError, sources: &Sources) -> (message: String)
    ensures
        message@ == complaint_of(*error, *sources),
{
    match error {
        SettingsError::UnknownTransport => {
            let kind = pick_three_or(sources, "transport", "PAYPHONE_TRANSPORT", "transport", DEFAULT_TRANSPORT);
            let named = joined("unknown transport ", &string_of(&lowered(&chars_of(&kind))));
            joined(&named, "; use quic or tls")
        },
        _ => error.message(),
    }
}

/// What is wrong with the settings. `key_file` is what is in the file that
/// the REALITY key names, if there is one.
pub open spec fn settings_fault(sources: Sources, key_file: Option<Seq<u8>>) -> Option<SettingsError> {
    if transport_in(transport_text(sources)) is None {
        Some(SettingsError::UnknownTransport)
    } else if sources.picked(psk_places()) is None {
        Some(SettingsError::NoPsk)
    } else {
        match sources.picked(reality_key_places()) {
            None => None,
            Some(key) => match sources.picked(
                places("reality-short-id", "PAYPHONE_REALITY_SHORT_ID", "reality_short_id"),
            ) {
                None => Some(SettingsError::NoClientShortId),
                Some(short) => match key_given(key, key_file) {
                    Err(error) => Some(SettingsError::RealityKey(error)),
                    Ok(_) => match short_id_in(short) {
                        Err(error) => Some(SettingsError::RealityKey(error)),
                        Ok(_) => None,
                    },
                },
            },
        }
    }
}

/// The TLS settings that the sources give.
pub open spec fn tls_of(tls: ClientTlsConfig, sources: Sources, key_file: Option<Seq<u8>>) -> bool {
    let key = sources.picked(reality_key_places());
    &&& tls.pin_path@ == or_text(sources.picked(pin_places()), CERT_PATH@)
    &&& tls.use_webpki == webpki_of(sources)
    &&& tls.server_name@ == (if key is Some {
        reality_sni_of(sources)
    } else {
        sni_of(sources)
    })
    &&& tls.reality is Some == key is Some
    &&& tls.reality matches Some(reality) ==> {
        &&& key_given(key->0, key_file) == Ok::<Seq<u8>, RealityKeyError>(reality.public_key@)
        &&& short_id_in(
            sources.picked(places("reality-short-id", "PAYPHONE_REALITY_SHORT_ID", "reality_short_id"))->0,
        ) == Ok::<Seq<u8>, RealityKeyError>(reality.short_id@)
        &&& reality.server_name@ == reality_sni_of(sources)
    }
}

/// The REALITY public key, as text or as the name of a file.
pub fn reality_pubkey_text(sources: &Sources) -> (key: Option<String>)
    ensures
        text_of(key) == sources.picked(reality_key_places()),
{
    let list = [
        Place::Option("reality-pubkey"),
        Place::Env("PAYPHONE_REALITY_PUBLIC_KEY"),
        Place::File("reality_public_key"),
        Place::File("reality_pubkey"),
    ];
    assert(list@ =~= reality_key_places());
    sources.pick(&list)
}

fn pick_server(sources: &Sources) -> (server: String)
    ensures
        server@ == server_of(*sources),
{
    let list = [
        Place::Option("server"),
        Place::Env("PAYPHONE_SERVER_ADDR"),
        Place::File("server"),
        Place::File("server_addr"),
    ];
    assert(list@ =~= server_places());
    sources.pick_or(&list, DEFAULT_SERVER)
}

fn pick_sni(sources: &Sources, server: &str) -> (name: String)
    requires
        server@ == server_of(*sources),
    ensures
        name@ == sni_of(*sources),
{
    let list = [
        Place::Option("sni"),
        Place::Env("PAYPHONE_SERVER_NAME"),
        Place::File("sni"),
        Place::File("server_name"),
    ];
    assert(list@ =~= sni_places());
    if let Some(name) = sources.pick(&list) {
        return name;
    }
    if let Some(host) = hostname_from_addr(server) {
        if looks_like_public_dns_name(&host) {
            return host;
        }
    }
    text(SERVER_NAME)
}

fn pick_reality_sni(sources: &Sources, sni: &str) -> (name: String)
    requires
        sni@ == sni_of(*sources),
    ensures
        name@ == reality_sni_of(*sources),
{
    let list = [
        Place::Option("reality-sni"),
        Place::Env("PAYPHONE_REALITY_SNI"),
        Place::File("reality_sni"),
        Place::Option("sni"),
        Place::Env("PAYPHONE_SERVER_NAME"),
    ];
    assert(list@ =~= reality_sni_places());
    let name = sources.pick_or(&list, sni);
    match dest_host(&name) {
        Ok(host) => host,
        Err(_) => name,
    }
}

fn resolve_tls(
    sources: &Sources,
    server: &str,
    key_file: Option<&Vec<u8>>,
) -> (out: Result<ClientTlsConfig, SettingsError>)
    requires
        server@ == server_of(*sources),
        settings_fault(*sources, None) != Some(SettingsError::UnknownTransport),
        settings_fault(*sources, None) != Some(SettingsError::NoPsk),
    ensures
        ({
            let bytes = match key_file {
                Some(bytes) => Some(bytes@),
                None => None,
            };
            match out {
                Ok(tls) => settings_fault(*sources, bytes) is None && tls_of(tls, *sources, bytes),
                Err(error) => settings_fault(*sources, bytes) == Some(error),
            }
        }),
{
    let pin_list = [
        Place::Option("tls-pin"),
        Place::Env("PAYPHONE_TLS_PIN"),
        Place::Env("PAYPHONE_TLS_CERT"),
        Place::File("tls_pin"),
        Place::File("tls_cert"),
    ];
    assert(pin_list@ =~= pin_places());
    let sni = pick_sni(sources, server);
    let pin_path = sources.pick_or(&pin_list, CERT_PATH);
    let use_webpki = match pick_three(sources, "tls-ca", "PAYPHONE_TLS_CA", "tls_ca") {
        Some(value) => is_public(&value),
        None => looks_like_public_dns_name(&sni),
    };
    let key = match reality_pubkey_text(sources) {
        Some(key) => key,
        None => return Ok(ClientTlsConfig { server_name: sni, pin_path, use_webpki, reality: None }),
    };
    let short = match pick_three(sources, "reality-short-id", "PAYPHONE_REALITY_SHORT_ID", "reality_short_id") {
        Some(short) => short,
        None => return Err(SettingsError::NoClientShortId),
    };
    let name = pick_reality_sni(sources, &sni);
    let public_key = match take_key(&key, key_file) {
        Ok(key) => key,
        Err(error) => return Err(SettingsError::RealityKey(error)),
    };
    let short_id = match parse_short_id(&short) {
        Ok(id) => id,
        Err(error) => return Err(SettingsError::RealityKey(error)),
    };
    let reality = RealityClientConfig { public_key, short_id, server_name: text(&name) };
    Ok(ClientTlsConfig { server_name: name, pin_path, use_webpki, reality: Some(reality) })
}

/// Settles the client's settings. `key_file` is what is in the file that the
/// REALITY key names, if there is one.
pub fn resolve_client(args: &Arguments, sources: &Sources, key_file: Option<&Vec<u8>>) -> (out: Result<
    ClientSettings,
    SettingsError,
>)
    ensures
        ({
            let bytes = match key_file {
                Some(bytes) => Some(bytes@),
                None => None,
            };
            match out {
                Err(error) => settings_fault(*sources, bytes) == Some(error),
                Ok(s) => {
                    &&& settings_fault(*sources, bytes) is None
                    &&& s.server@ == server_of(*sources)
                    &&& text_of(s.tcp_server) == sources.picked(
                        places("tcp-server", "PAYPHONE_TCP_SERVER_ADDR", "tcp_server"),
                    )
                    &&& Some(s.transport) == transport_in(
                        or_text(
                            sources.picked(places("transport", "PAYPHONE_TRANSPORT", "transport")),
                            DEFAULT_TRANSPORT@,
                        ),
                    )
                    &&& sources.picked(psk_places()) == Some(s.psk@)
                    &&& s.token@ == or_text(
                        sources.picked(places("token", "PAYPHONE_TOKEN", "token")),
                        DEFAULT_TOKEN@,
                    )
                    &&& s.session@ == or_text(
                        sources.picked(places("session", "PAYPHONE_SESSION_FILE", "session")),
                        DEFAULT_SESSION@,
                    )
                    &&& tls_of(s.tls, *sources, bytes)
                    &&& s.kill_switch == (args.switch || is_on(sources.at(Place::Env("PAYPHONE_KILL_SWITCH"))) || is_on(
                        sources.at(Place::File("kill_switch")),
                    ) || is_on(sources.at(Place::File("killswitch"))))
                    &&& s.dev_mode == (args.dev || is_on(sources.at(Place::Env("PAYPHONE_DEV_MODE"))) || is_on(
                        sources.at(Place::File("dev")),
                    ) || is_on(sources.at(Place::File("dev_mode"))))
                },
            }
        }),
{
    let server = pick_server(sources);
    let tcp_server = pick_three(sources, "tcp-server", "PAYPHONE_TCP_SERVER_ADDR", "tcp_server");
    let kind = pick_three_or(sources, "transport", "PAYPHONE_TRANSPORT", "transport", DEFAULT_TRANSPORT);
    let transport = match parse_transport(&kind) {
        Ok(kind) => kind,
        Err(error) => return Err(error),
    };
    let psk = match pick_psk(sources) {
        Some(psk) => psk,
        None => return Err(SettingsError::NoPsk),
    };
    let token = pick_three_or(sources, "token", "PAYPHONE_TOKEN", "token", DEFAULT_TOKEN);
    let session = pick_three_or(sources, "session", "PAYPHONE_SESSION_FILE", "session", DEFAULT_SESSION);
    let tls = match resolve_tls(sources, &server, key_file) {
        Ok(tls) => tls,
        Err(error) => return Err(error),
    };
    let kill_switch = args.switch || switched_on(&sources.env.get("PAYPHONE_KILL_SWITCH")) || switched_on(
        &sources.file.get("kill_switch"),
    ) || switched_on(&sources.file.get("killswitch"));
    let dev_mode = args.dev || switched_on(&sources.env.get("PAYPHONE_DEV_MODE")) || switched_on(
        &sources.file.get("dev"),
    ) || switched_on(&sources.file.get("dev_mode"));
    Ok(ClientSettings { server, tcp_server, transport, psk, token, session, tls, dev_mode, kill_switch })
}

/// The port of the HTTPS front where no address is set for it: one of its
/// own where the server has the default one.
pub fn tls_connect_port(quic_port: u16) -> (port: u16)
    ensures
        port == (if quic_port == DEFAULT_PORT {
            DEFAULT_TCP_PORT
        } else {
            quic_port
        }),
{
    if quic_port == DEFAULT_PORT {
        DEFAULT_TCP_PORT
    } else {
        quic_port
    }
}

} // verus!
