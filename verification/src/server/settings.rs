//! The server's settings.

use vstd::prelude::*;

use crate::protocol::{DEFAULT_PORT, DEFAULT_TCP_PORT};
use crate::settings::{
    is_on, key_given, no_arguments, or_text, pick_psk, pick_three, pick_three_or, places, psk_places, switched_on,
    take_key, text_of, with_words, ArgError, ArgSpec, Arguments, Place, SettingsError, Sources, Vocabulary, Words,
};
use crate::text::{
    chars_of, is_listed, listed, lower_all, same_ignoring_case, spells, split, string_of, string_views, text, trim,
    trimmed,
};
use crate::transport::identity::{
    acme_dir_for, ascending, before_in_order, default_acme_dir, parse_sans, sans_in, ServerTlsConfig, CERT_PATH,
    KEY_PATH, SERVER_NAME,
};
use crate::transport::reality::config::{
    dest_host, host_of, RealityConfigError, RealityServerConfig, DEFAULT_MAX_TIME_DIFF_MS,
};
use crate::transport::reality::keys::{
    id_views, parse_short_ids, short_ids_in, RealityKeyError,
};

verus! {

// ---------------------------------------------------------------------------
// The command line
// ---------------------------------------------------------------------------

pub open spec fn server_words() -> Words {
    Words {
        options: seq![
            "bind"@,
            "tcp-bind"@,
            "psk"@,
            "tls-cert"@,
            "tls-key"@,
            "tls-san"@,
            "tls-domain"@,
            "acme-email"@,
            "acme-dir"@,
            "auth-key"@,
            "dns-upstream"@,
            "session-store"@,
            "revoke-file"@,
            "reality"@,
            "reality-dest"@,
            "reality-private-key"@,
            "reality-short-id"@,
            "config"@,
        ],
        aliases: Seq::empty(),
        switch: "acme-staging"@,
        strict: false,
        shorts: seq![('c', "config"@)],
        clusters: false,
    }
}

fn server_vocabulary() -> (words: Vocabulary)
    ensures
        words@ == server_words(),
{
    let mut options: Vec<&'static str> = Vec::new();
    options.push("bind");
    options.push("tcp-bind");
    options.push("psk");
    options.push("tls-cert");
    options.push("tls-key");
    options.push("tls-san");
    options.push("tls-domain");
    options.push("acme-email");
    options.push("acme-dir");
    options.push("auth-key");
    options.push("dns-upstream");
    options.push("session-store");
    options.push("revoke-file");
    options.push("reality");
    options.push("reality-dest");
    options.push("reality-private-key");
    options.push("reality-short-id");
    options.push("config");
    let mut shorts: Vec<(char, &'static str)> = Vec::new();
    shorts.push(('c', "config"));
    let words = Vocabulary {
        options,
        aliases: Vec::new(),
        switch: "acme-staging",
        strict: false,
        shorts,
        clusters: false,
    };
    assert(words@.options =~= server_words().options);
    assert(words@.aliases =~= server_words().aliases);
    assert(words@.shorts =~= server_words().shorts);
    words
}

/// Reads the server's command line.
pub fn read_server_arguments(input: &Vec<String>) -> (out: Result<Arguments, ArgError>)
    ensures
        match out {
            Ok(args) => with_words(
                server_words(),
                no_arguments(),
                string_views(input@),
            ) == ArgSpec::Ok(args@),
            Err(error) => with_words(
                server_words(),
                no_arguments(),
                string_views(input@),
            ) == ArgSpec::Err((error.fault, error.word@)),
        },
{
    server_vocabulary().read(input)
}

// ---------------------------------------------------------------------------
// Where each setting stands
// ---------------------------------------------------------------------------

pub open spec fn bind_places() -> Seq<Place> {
    seq![
        Place::Option("bind"),
        Place::Env("PAYPHONE_BIND_ADDR"),
        Place::File("bind"),
        Place::File("bind_addr"),
    ]
}

pub open spec fn tcp_bind_places() -> Seq<Place> {
    seq![
        Place::Option("tcp-bind"),
        Place::Env("PAYPHONE_TCP_BIND_ADDR"),
        Place::File("tcp_bind"),
        Place::File("tcp_bind_addr"),
    ]
}

/// `1` or `true`, the latter in any case.
pub open spec fn file_says_yes(value: Option<Seq<char>>) -> bool {
    value matches Some(value) && (value == "1"@ || lower_all(value) == lower_all("true"@))
}

fn is_file_yes(value: &Option<String>) -> (yes: bool)
    ensures
        yes == file_says_yes(text_of(*value)),
{
    match value {
        Some(value) => {
            let chars = chars_of(value);
            spells(&chars, "1") || same_ignoring_case(&chars, &chars_of("true"))
        },
        None => false,
    }
}

// ---------------------------------------------------------------------------
// The settings
// ---------------------------------------------------------------------------

pub struct ServerSettings {
    pub bind: String,
    pub tcp_bind: Option<String>,
    pub psk: String,
    pub tls: ServerTlsConfig,
    pub auth_key: String,
    pub dns_upstream: Option<String>,
    pub session_store: Option<String>,
    pub revoke_file: String,
    pub reality: Option<RealityServerConfig>,
    pub dev_mode: bool,
}

/// The default UDP address.
pub const DEFAULT_BIND: &'static str = "127.0.0.1:40404";

pub const DEFAULT_AUTH_KEY: &'static str = "auth-keys/subscription-public.key";

pub const DEFAULT_REVOKE_FILE: &'static str = "auth-keys/revoked-token-ids.txt";

pub const DEFAULT_REALITY_KEY: &'static str = "auth-keys/reality-private.key";

/// Whether `name` is one of `names`, case aside.
pub open spec fn names_hold(names: Seq<Seq<char>>, name: Seq<char>) -> bool {
    exists|i: int| 0 <= i < names.len() && lower_all(#[trigger] names[i]) == lower_all(name)
}

/// The names of the certificate: the configured ones, and the ACME domain.
pub open spec fn sans_with_domain(sans: Option<Seq<char>>, domain: Option<Seq<char>>) -> Seq<Seq<char>> {
    let names = match sans {
        Some(value) => sans_in(Some(value)),
        None => seq![SERVER_NAME@],
    };
    match domain {
        Some(domain) => if names_hold(names, domain) {
            names
        } else {
            names.push(domain)
        },
        None => names,
    }
}

pub open spec fn tls_fits(tls: ServerTlsConfig, sources: Sources, switch: bool, container: bool) -> bool {
    let domain = sources.picked(places("tls-domain", "PAYPHONE_TLS_DOMAIN", "tls_domain"));
    &&& tls.cert_path@ == or_text(sources.picked(places("tls-cert", "PAYPHONE_TLS_CERT", "tls_cert")), CERT_PATH@)
    &&& tls.key_path@ == or_text(sources.picked(places("tls-key", "PAYPHONE_TLS_KEY", "tls_key")), KEY_PATH@)
    &&& string_views(tls.sans@) == sans_with_domain(
        sources.picked(places("tls-san", "PAYPHONE_TLS_SAN", "tls_san")),
        domain,
    )
    &&& text_of(tls.acme_domain) == domain
    &&& text_of(tls.acme_email) == sources.picked(places("acme-email", "PAYPHONE_ACME_EMAIL", "acme_email"))
    &&& tls.acme_dir@ == or_text(
        sources.picked(places("acme-dir", "PAYPHONE_ACME_DIR", "acme_dir")),
        acme_dir_for(container),
    )
    &&& tls.acme_staging == (switch || is_on(sources.at(Place::Env("PAYPHONE_ACME_STAGING"))) || file_says_yes(
        sources.at(Place::File("acme_staging")),
    ))
}

proof fn lemma_listed_views(names: Seq<String>, name: Seq<char>)
    ensures
        listed(names, name) == names_hold(string_views(names), name),
{
    let views = string_views(names);
    if listed(names, name) {
        let i = choose|i: int| 0 <= i < names.len() && lower_all(#[trigger] names[i]@) == lower_all(name);
        assert(lower_all(views[i]) == lower_all(name));
    }
    if names_hold(views, name) {
        let i = choose|i: int| 0 <= i < views.len() && lower_all(#[trigger] views[i]) == lower_all(name);
        assert(lower_all(names[i]@) == lower_all(name));
    }
}

fn resolve_tls(sources: &Sources, switch: bool, container: bool) -> (tls: ServerTlsConfig)
    ensures
        tls_fits(tls, *sources, switch, container),
{
    let mut sans: Vec<String> = match pick_three(sources, "tls-san", "PAYPHONE_TLS_SAN", "tls_san") {
        Some(value) => parse_sans(Some(value)),
        None => {
            let mut sans: Vec<String> = Vec::new();
            sans.push(text(SERVER_NAME));
            assert(string_views(sans@) =~= seq![SERVER_NAME@]);
            sans
        },
    };
    let acme_domain = pick_three(sources, "tls-domain", "PAYPHONE_TLS_DOMAIN", "tls_domain");
    if let Some(domain) = &acme_domain {
        proof {
            lemma_listed_views(sans@, domain@);
        }
        if !is_listed(&sans, &chars_of(domain)) {
            let ghost before = string_views(sans@);
            sans.push(text(domain));
            assert(string_views(sans@) =~= before.push(domain@));
        }
    }
    let dir = default_acme_dir(container);
    let acme_staging = switch || switched_on(&sources.env.get("PAYPHONE_ACME_STAGING")) || is_file_yes(
        &sources.file.get("acme_staging"),
    );
    ServerTlsConfig {
        cert_path: pick_three_or(sources, "tls-cert", "PAYPHONE_TLS_CERT", "tls_cert", CERT_PATH),
        key_path: pick_three_or(sources, "tls-key", "PAYPHONE_TLS_KEY", "tls_key", KEY_PATH),
        sans,
        acme_domain,
        acme_email: pick_three(sources, "acme-email", "PAYPHONE_ACME_EMAIL", "acme_email"),
        acme_dir: pick_three_or(sources, "acme-dir", "PAYPHONE_ACME_DIR", "acme_dir", &dir),
        acme_staging,
    }
}

/// The REALITY key, as text or as the name of a file.
pub fn reality_key_text(sources: &Sources) -> (key: String)
    ensures
        key@ == or_text(
            sources.picked(places("reality-private-key", "PAYPHONE_REALITY_PRIVATE_KEY", "reality_private_key")),
            DEFAULT_REALITY_KEY@,
        ),
{
    pick_three_or(
        sources,
        "reality-private-key",
        "PAYPHONE_REALITY_PRIVATE_KEY",
        "reality_private_key",
        DEFAULT_REALITY_KEY,
    )
}

/// The short ids as text: a setting, or what their file holds, blanks around
/// it left out.
pub open spec fn short_text(sources: Sources, short_file: Option<Seq<char>>) -> Option<Seq<char>> {
    match sources.picked(places("reality-short-id", "PAYPHONE_REALITY_SHORT_ID", "reality_short_id")) {
        Some(value) => Some(value),
        None => match short_file {
            Some(value) => if trim(value).len() > 0 {
                Some(trim(value))
            } else {
                None
            },
            None => None,
        },
    }
}

pub open spec fn reality_is_on(sources: Sources) -> bool {
    is_on(sources.picked(places("reality", "PAYPHONE_REALITY", "reality")))
}

/// What is wrong with the REALITY settings, if they are on.
pub open spec fn reality_fault(sources: Sources, key_file: Option<Seq<u8>>, short_file: Option<Seq<char>>) -> Option<
    SettingsError,
> {
    let dest = sources.picked(places("reality-dest", "PAYPHONE_REALITY_DEST", "reality_dest"));
    let key = or_text(
        sources.picked(places("reality-private-key", "PAYPHONE_REALITY_PRIVATE_KEY", "reality_private_key")),
        DEFAULT_REALITY_KEY@,
    );
    match dest {
        None => Some(SettingsError::NoRealityDest),
        Some(dest) => match key_given(key, key_file) {
            Err(error) => Some(SettingsError::RealityKey(error)),
            Ok(_) => match short_text(sources, short_file) {
                None => Some(SettingsError::NoRealityShortId),
                Some(short) => match short_ids_in(split(short, seq![',', ' ', ';'])) {
                    Err(error) => Some(SettingsError::RealityKey(error)),
                    Ok(ids) => if ids.len() == 0 {
                        Some(SettingsError::RealityKey(RealityKeyError::NoShortIds))
                    } else {
                        match host_of(dest) {
                            Err(error) => Some(SettingsError::Reality(error)),
                            Ok(_) => None,
                        }
                    },
                },
            },
        },
    }
}

/// The REALITY settings, before the server's own names are known.
pub open spec fn reality_fits(
    reality: RealityServerConfig,
    sources: Sources,
    key_file: Option<Seq<u8>>,
    short_file: Option<Seq<char>>,
) -> bool {
    let dest = sources.picked(places("reality-dest", "PAYPHONE_REALITY_DEST", "reality_dest"));
    let key = or_text(
        sources.picked(places("reality-private-key", "PAYPHONE_REALITY_PRIVATE_KEY", "reality_private_key")),
        DEFAULT_REALITY_KEY@,
    );
    &&& Some(reality.dest@) == dest
    &&& key_given(key, key_file) == Ok::<Seq<u8>, RealityKeyError>(reality.private_key@)
    &&& short_ids_in(split(short_text(sources, short_file)->0, seq![',', ' ', ';'])) == Ok::<
        Seq<Seq<u8>>,
        RealityKeyError,
    >(id_views(reality.short_ids@))
    &&& reality.server_names@.len() == 1
    &&& host_of(reality.dest@) == Ok::<Seq<char>, RealityConfigError>(reality.server_names@[0]@)
    &&& reality.max_time_diff_ms == DEFAULT_MAX_TIME_DIFF_MS
    &&& forall|i: int| 0 <= i < 3 ==> (#[trigger] reality.post_handshake@[i])@.len() == 0
}

fn load_reality(
    sources: &Sources,
    key_file: Option<&Vec<u8>>,
    short_file: &Option<String>,
) -> (out: Result<Option<RealityServerConfig>, SettingsError>)
    ensures
        ({
            let bytes = match key_file {
                Some(bytes) => Some(bytes@),
                None => None,
            };
            if !reality_is_on(*sources) {
                out matches Ok(None)
            } else {
                match reality_fault(*sources, bytes, text_of(*short_file)) {
                    Some(error) => out == Err::<Option<RealityServerConfig>, SettingsError>(error),
                    None => out matches Ok(Some(reality)) && reality_fits(
                        reality,
                        *sources,
                        bytes,
                        text_of(*short_file),
                    ),
                }
            }
        }),
{
    if !switched_on(&pick_three(sources, "reality", "PAYPHONE_REALITY", "reality")) {
        return Ok(None);
    }
    let dest = match pick_three(sources, "reality-dest", "PAYPHONE_REALITY_DEST", "reality_dest") {
        Some(dest) => dest,
        None => return Err(SettingsError::NoRealityDest),
    };
    let key = reality_key_text(sources);
    let private_key = match take_key(&key, key_file) {
        Ok(key) => key,
        Err(error) => return Err(SettingsError::RealityKey(error)),
    };
    let short = match pick_three(sources, "reality-short-id", "PAYPHONE_REALITY_SHORT_ID", "reality_short_id") {
        Some(short) => short,
        None => match short_file {
            Some(short) => {
                let chars = chars_of(short);
                let short = trimmed(&chars);
                if short.len() == 0 {
                    return Err(SettingsError::NoRealityShortId);
                }
                string_of(short)
            },
            None => return Err(SettingsError::NoRealityShortId),
        },
    };
    let short_ids = match parse_short_ids(&short) {
        Ok(ids) => ids,
        Err(error) => return Err(SettingsError::RealityKey(error)),
    };
    match RealityServerConfig::new(dest, private_key, short_ids) {
        Ok(reality) => Ok(Some(reality)),
        Err(error) => Err(SettingsError::Reality(error)),
    }
}

/// Whether a name is among the server's own, and not that of the site.
pub open spec fn is_local_name(tls: ServerTlsConfig, dest: Seq<char>, name: Seq<char>) -> bool {
    &&& tls.is_own(name)
    &&& name.len() > 0
    &&& host_of(dest) matches Ok(host) ==> lower_all(host) != lower_all(name)
}

/// The names that stay local beside the site, in order, each once.
fn local_names_for(tls: &ServerTlsConfig, dest: &str) -> (names: Vec<String>)
    ensures
        ascending(string_views(names@)),
        forall|name: Seq<char>| #[trigger] string_views(names@).contains(name) <==> is_local_name(*tls, dest@, name),
{
    let host = dest_host(dest);
    let own = tls.local_hostnames();
    let ghost all = string_views(own@);
    let mut names: Vec<String> = Vec::new();
    let mut i: usize = 0;
    assert(string_views(names@) =~= Seq::empty());
    while i < own.len()
        invariant
            i <= own@.len(),
            all == string_views(own@),
            ascending(all),
            ascending(string_views(names@)),
            match host {
                Ok(host) => host_of(dest@) == Ok::<Seq<char>, RealityConfigError>(host@),
                Err(_) => host_of(dest@) is Err,
            },
            forall|name: Seq<char>| #[trigger]
                string_views(names@).contains(name) <==> all.take(i as int).contains(name) && (host_of(
                    dest@,
                ) matches Ok(host) ==> lower_all(host) != lower_all(name)),
        decreases own@.len() - i,
    {
        let name = chars_of(&own[i]);
        let keep = match &host {
            Ok(host) => !same_ignoring_case(&name, &chars_of(host)),
            Err(_) => true,
        };
        proof {
            assert(all[i as int] == name@);
            lemma_grow(all, i as int);
        }
        let ghost before = string_views(names@);
        if keep {
            names.push(text(&own[i]));
            proof {
                assert(string_views(names@) =~= before.push(name@));
                lemma_push_contains(before, name@);
                assert forall|j: int| 0 <= j < before.len() implies before_in_order(#[trigger] before[j], name@) by {
                    assert(before.contains(before[j]));
                    let k = all.take(i as int).index_of(before[j]);
                    assert(all[k] == before[j]);
                }
            }
        }
        i = i + 1;
    }
    assert(all.take(i as int) =~= all);
    names
}

proof fn lemma_grow(s: Seq<Seq<char>>, i: int)
    requires
        0 <= i < s.len(),
    ensures
        forall|n: Seq<char>| #[trigger] s.take(i + 1).contains(n) <==> s.take(i).contains(n) || n == s[i],
{
    assert(s.take(i + 1) =~= s.take(i).push(s[i]));
    lemma_push_contains(s.take(i), s[i]);
}

proof fn lemma_push_contains(s: Seq<Seq<char>>, x: Seq<char>)
    ensures
        forall|n: Seq<char>| #[trigger] s.push(x).contains(n) <==> s.contains(n) || n == x,
{
    assert forall|n: Seq<char>| #[trigger] s.push(x).contains(n) <==> s.contains(n) || n == x by {
        if s.contains(n) {
            let k = s.index_of(n);
            assert(s.push(x)[k] == n);
        }
        if n == x {
            assert(s.push(x)[s.len() as int] == n);
        }
        if s.push(x).contains(n) && n != x {
            let k = s.push(x).index_of(n);
            assert(s[k] == n);
        }
    }
}

/// Settles the server's settings. `key_file` is what is in the file that the
/// REALITY key names, `short_file` what is in that of its short ids;
/// `container` tells whether the state directory of a container is there.
pub fn resolve_server(
    args: &Arguments,
    sources: &Sources,
    key_file: Option<&Vec<u8>>,
    short_file: &Option<String>,
    container: bool,
) -> (out: Result<ServerSettings, SettingsError>)
    ensures
        ({
            let bytes = match key_file {
                Some(bytes) => Some(bytes@),
                None => None,
            };
            let psk = sources.picked(psk_places());
            match out {
                Err(error) => {
                    ||| psk is None && error == SettingsError::NoPsk
                    ||| psk is Some && reality_is_on(*sources) && reality_fault(*sources, bytes, text_of(*short_file))
                        == Some(error)
                },
                Ok(s) => {
                    &&& s.bind@ == or_text(sources.picked(bind_places()), DEFAULT_BIND@)
                    &&& text_of(s.tcp_bind) == sources.picked(tcp_bind_places())
                    &&& psk == Some(s.psk@)
                    &&& tls_fits(s.tls, *sources, args.switch, container)
                    &&& s.auth_key@ == or_text(
                        sources.picked(places("auth-key", "PAYPHONE_AUTH_KEY", "auth_key")),
                        DEFAULT_AUTH_KEY@,
                    )
                    &&& text_of(s.dns_upstream) == sources.picked(
                        places("dns-upstream", "PAYPHONE_DNS_UPSTREAM", "dns_upstream"),
                    )
                    &&& text_of(s.session_store) == sources.picked(
                        places("session-store", "PAYPHONE_SESSION_STORE", "session_store"),
                    )
                    &&& s.revoke_file@ == or_text(
                        sources.picked(places("revoke-file", "PAYPHONE_REVOKE_FILE", "revoke_file")),
                        DEFAULT_REVOKE_FILE@,
                    )
                    &&& s.dev_mode == (args.dev || is_on(sources.at(Place::Env("PAYPHONE_DEV_MODE"))) || file_says_yes(
                        sources.at(Place::File("dev")),
                    ))
                    &&& s.reality is Some == reality_is_on(*sources)
                    &&& s.reality matches Some(reality) ==> {
                        &&& reality_fault(*sources, bytes, text_of(*short_file)) is None
                        &&& reality_fits(reality, *sources, bytes, text_of(*short_file))
                        &&& ascending(string_views(reality.local_names@))
                        &&& forall|name: Seq<char>| #[trigger]
                            string_views(reality.local_names@).contains(name) <==> is_local_name(
                                s.tls,
                                reality.dest@,
                                name,
                            )
                    }
                },
            }
        }),
{
    let bind_list = [
        Place::Option("bind"),
        Place::Env("PAYPHONE_BIND_ADDR"),
        Place::File("bind"),
        Place::File("bind_addr"),
    ];
    assert(bind_list@ =~= bind_places());
    let tcp_list = [
        Place::Option("tcp-bind"),
        Place::Env("PAYPHONE_TCP_BIND_ADDR"),
        Place::File("tcp_bind"),
        Place::File("tcp_bind_addr"),
    ];
    assert(tcp_list@ =~= tcp_bind_places());
    let bind = sources.pick_or(&bind_list, DEFAULT_BIND);
    let tcp_bind = sources.pick(&tcp_list);
    let psk = match pick_psk(sources) {
        Some(psk) => psk,
        None => return Err(SettingsError::NoPsk),
    };
    let tls = resolve_tls(sources, args.switch, container);
    let auth_key = pick_three_or(sources, "auth-key", "PAYPHONE_AUTH_KEY", "auth_key", DEFAULT_AUTH_KEY);
    let dns_upstream = pick_three(sources, "dns-upstream", "PAYPHONE_DNS_UPSTREAM", "dns_upstream");
    let session_store = pick_three(sources, "session-store", "PAYPHONE_SESSION_STORE", "session_store");
    let revoke_file = pick_three_or(
        sources,
        "revoke-file",
        "PAYPHONE_REVOKE_FILE",
        "revoke_file",
        DEFAULT_REVOKE_FILE,
    );
    let reality = match load_reality(sources, key_file, short_file) {
        Err(error) => return Err(error),
        Ok(None) => None,
        Ok(Some(reality)) => {
            let mut reality = reality;
            reality.local_names = local_names_for(&tls, &reality.dest);
            Some(reality)
        },
    };
    let dev_mode = args.dev || switched_on(&sources.env.get("PAYPHONE_DEV_MODE")) || is_file_yes(
        &sources.file.get("dev"),
    );
    Ok(
        ServerSettings {
            bind,
            tcp_bind,
            psk,
            tls,
            auth_key,
            dns_upstream,
            session_store,
            revoke_file,
            reality,
            dev_mode,
        },
    )
}

// ---------------------------------------------------------------------------
// Addresses
// ---------------------------------------------------------------------------

/// Where the HTTPS front listens.
#[derive(Debug)]
pub enum TcpBind {
    Off,
    /// At this address.
    At(String),
    /// On the address of the UDP socket, at this port.
    Port(u16),
}

/// `off`, or `false` in any case, switches the front off. Without a setting it
/// follows the UDP socket, with a port of its own where that has the default
/// one.
pub fn tcp_bind_rule(setting: Option<&str>, udp_port: u16) -> (bind: TcpBind)
    ensures
        match setting {
            Some(value) => if value@ == "off"@ || lower_all(value@) == lower_all("false"@) {
                bind is Off
            } else {
                bind matches TcpBind::At(address) && address@ == value@
            },
            None => bind matches TcpBind::Port(port) && port == (if udp_port == DEFAULT_PORT {
                DEFAULT_TCP_PORT
            } else {
                udp_port
            }),
        },
{
    match setting {
        Some(value) => {
            let chars = chars_of(value);
            if spells(&chars, "off") || same_ignoring_case(&chars, &chars_of("false")) {
                TcpBind::Off
            } else {
                TcpBind::At(text(value))
            }
        },
        None => {
            if udp_port == DEFAULT_PORT {
                TcpBind::Port(DEFAULT_TCP_PORT)
            } else {
                TcpBind::Port(udp_port)
            }
        },
    }
}

/// The file that sessions are kept in.
pub fn session_store_path(setting: Option<String>, container: bool) -> (path: String)
    ensures
        path@ == (match setting {
            Some(path) => path@,
            None => if container {
                "/app/state/sessions.bin"@
            } else {
                "payphone-sessions.bin"@
            },
        }),
{
    match setting {
        Some(path) => path,
        None => {
            if container {
                text("/app/state/sessions.bin")
            } else {
                text("payphone-sessions.bin")
            }
        },
    }
}

} // verus!
