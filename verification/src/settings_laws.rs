//! What the settings say, whichever way they are given.

use vstd::prelude::*;

use crate::client::settings::{read_client_arguments, resolve_client, tls_connect_port, ClientSettings, TransportKind};
use crate::server::settings::{
    read_server_arguments, resolve_server, session_store_path, tcp_bind_rule, ServerSettings, TcpBind,
};
use crate::settings::{
    file_step, load_kv_file, pairs_on, parse_bool_flag, pick_psk, pick_three, pick_three_or, switched_on, text_of,
    take_key, value_in, with_shorts, with_word, with_words, ArgError, ArgFault, Arguments, ArgumentsSpec, FileStep,
    Pairs, Place, SettingsError, Sources, Words,
};
use crate::text::{first_place, lower_all, split, string_views, trim};
use crate::text_laws::{lemma_first_place, lemma_split_around, lemma_split_whole};
use crate::transport::identity::{hostname_from_addr, looks_like_public_dns_name};
use crate::transport::reality::config::{
    dest_host, RealityClientConfig, RealityConfigError, RealityServerConfig,
};
use crate::transport::reality::keys::{parse_32_bytes, parse_32_bytes_raw, RealityKeyError};

verus! {

// ---------------------------------------------------------------------------
// Names and values
// ---------------------------------------------------------------------------

/// A name has the value that it was given last, whatever was given to others
/// since.
pub proof fn law_last_value_counts(
    pairs: &mut Pairs,
    name: String,
    value: String,
    earlier: &Pairs,
    later: &Pairs,
    key: &str,
    had: Option<String>,
    has_now: Option<String>,
    empty: &Pairs,
    nothing: Option<String>,
)
    requires
        call_ensures(Pairs::put, (pairs, name, value), ()),
        *earlier == *old(pairs),
        *later == *final(pairs),
        call_ensures(Pairs::get, (earlier, key), had),
        call_ensures(Pairs::get, (later, key), has_now),
        call_ensures(Pairs::new, (), *empty),
        call_ensures(Pairs::get, (empty, key), nothing),
    ensures
        key@ == name@ ==> (has_now matches Some(text) && text@ == value@),
        key@ != name@ ==> text_of(has_now) == text_of(had),
        nothing is None,
{
    assert(later@.drop_last() =~= earlier@);
}

/// A file is read line by line, and what stands in one line has nothing to do
/// with the others.
pub proof fn law_lines_apart(
    content: &str,
    whole: Pairs,
    upper: &str,
    before: Pairs,
    lower_part: &str,
    after: Pairs,
)
    requires
        content@ == upper@.push('\n') + lower_part@,
        call_ensures(load_kv_file, (content,), whole),
        call_ensures(load_kv_file, (upper,), before),
        call_ensures(load_kv_file, (lower_part,), after),
    ensures
        whole@ == before@ + after@,
{
    let newline = seq!['\n'];
    assert(newline[0] == '\n');
    lemma_split_around(upper@, '\n', lower_part@, newline);
    lemma_pairs_apart(split(upper@, newline), split(lower_part@, newline));
}

proof fn lemma_pairs_apart(a: Seq<Seq<char>>, b: Seq<Seq<char>>)
    ensures
        pairs_on(a + b) == pairs_on(a) + pairs_on(b),
    decreases b.len(),
{
    if b.len() == 0 {
        assert(a + b =~= a);
        assert(pairs_on(a) + pairs_on(b) =~= pairs_on(a));
    } else {
        lemma_pairs_apart(a, b.drop_last());
        assert((a + b).drop_last() =~= a + b.drop_last());
        assert(pairs_on(a + b) =~= pairs_on(a) + pairs_on(b));
    }
}

/// A line gives the name before its first equals sign the value behind it,
/// blanks around them aside. In the name capital letters are small and dashes
/// are underscores. Comments, heads of sections and lines without an equals
/// sign give nothing.
pub proof fn law_line(line: &str, pairs: Pairs, name: Seq<char>, value: Seq<char>, i: int)
    requires
        call_ensures(load_kv_file, (line,), pairs),
        !line@.contains('\n'),
    ensures
        trim(line@).len() == 0 ==> pairs@.len() == 0,
        trim(line@).len() > 0 && (trim(line@)[0] == '#' || trim(line@)[0] == '[') ==> pairs@.len() == 0,
        !trim(line@).contains('=') ==> pairs@.len() == 0,
        ({
            let given = trim(line@) == name.push('=') + value && name.len() > 0 && name[0] != '#' && name[0] != '['
                && !name.contains('=') && trim(name) == name && name[0] != 'p';
            &&& given ==> pairs@.len() == 1 && pairs@[0].0.len() == name.len()
            &&& given && 0 <= i < name.len() && name[i] == '-' ==> pairs@[0].0[i] == '_'
            &&& given && 0 <= i < name.len() && 'A' <= name[i] <= 'Z' ==> pairs@[0].0[i] as int == name[i] as int + 32
            &&& given && 0 <= i < name.len() && name[i] != '-' && !('A' <= name[i] <= 'Z') ==> pairs@[0].0[i] == name[i]
            &&& given && bare(trim(value)) ==> pairs@[0].1 == trim(value)
            &&& given && trim(value).len() >= 2 && trim(value)[0] == '"' && trim(value).last() == '"' && bare(
                trim(value).subrange(1, trim(value).len() - 1),
            ) ==> pairs@[0].1 == trim(value).subrange(1, trim(value).len() - 1)
        }),
{
    let newline = seq!['\n'];
    assert forall|k: int| 0 <= k < line@.len() implies !newline.contains(#[trigger] line@[k]) by {
        if newline.contains(line@[k]) {
            assert(line@[k] == '\n');
            assert(line@.contains(line@[k]));
        }
    }
    lemma_split_whole(line@, newline);
    let lines = seq![line@];
    reveal_with_fuel(pairs_on, 2);
    assert(lines.drop_last() =~= Seq::<Seq<char>>::empty());
    assert(lines.last() == line@);
    let t = trim(line@);
    lemma_first_place(t, '=');
    if !t.contains('=') {
        if let Some(at) = first_place(t, '=') {
            assert(t.contains(t[at]));
        }
    }
    if t == name.push('=') + value && name.len() > 0 && !name.contains('=') && trim(name) == name && name[0] != 'p' {
        assert(t[name.len() as int] == '=');
        let at = first_place(t, '=')->0;
        if at < name.len() {
            assert(name.contains(name[at]));
        }
        assert(t.take(at) =~= name);
        assert(t.skip(at + 1) =~= value);
        assert(t[0] == name[0]);
        let p = crate::settings::name_prefix();
        if p.len() <= name.len() {
            assert(name.take(p.len() as int)[0] == name[0]);
        }
        let v = trim(value);
        if bare(v) {
            lemma_bare(v);
        }
        if v.len() >= 2 && v[0] == '"' && v.last() == '"' {
            let inner = v.subrange(1, v.len() - 1);
            if bare(inner) {
                lemma_bare(inner);
                lemma_unquoted(v);
            }
        }
    }
}

/// Text that neither begins nor ends with a quotation mark.
pub open spec fn bare(s: Seq<char>) -> bool {
    s.len() > 0 ==> s[0] != '"' && s[0] != '\'' && s.last() != '"' && s.last() != '\''
}

proof fn lemma_bare(s: Seq<char>)
    requires
        bare(s),
    ensures
        crate::settings::strip(s, '"') == s,
        crate::settings::strip(s, '\'') == s,
{
}

proof fn lemma_unquoted(v: Seq<char>)
    requires
        v.len() >= 2,
        v[0] == '"',
        v.last() == '"',
        bare(v.subrange(1, v.len() - 1)),
    ensures
        crate::settings::strip(v, '"') == v.subrange(1, v.len() - 1),
{
    let inner = v.subrange(1, v.len() - 1);
    let front = v.skip(1);
    assert(front.drop_last() =~= inner);
    if inner.len() > 0 {
        assert(front[0] == inner[0]);
        assert(crate::settings::strip_front(front, '"') == front);
        assert(crate::settings::strip_front(v, '"') == front);
        assert(crate::settings::strip_back(inner, '"') == inner);
        assert(crate::settings::strip_back(front, '"') == inner);
    } else {
        assert(front =~= seq!['"']);
        assert(front.skip(1) =~= Seq::<char>::empty());
        assert(crate::settings::strip_front(front.skip(1), '"') =~= Seq::<char>::empty());
        assert(crate::settings::strip_front(front, '"') =~= Seq::<char>::empty());
        assert(crate::settings::strip_front(v, '"') =~= Seq::<char>::empty());
        assert(inner =~= Seq::<char>::empty());
    }
}

/// A value switches on or off by four words each, in small letters or
/// capitals; no other does either.
pub proof fn law_flag(value: &str, flag: Option<bool>, setting: &Option<String>, on: bool)
    requires
        call_ensures(parse_bool_flag, (value,), flag),
        call_ensures(switched_on, (setting,), on),
    ensures
        ({
            let v = lower_all(value@);
            let yes = v == "1"@ || v == "true"@ || v == "on"@ || v == "yes"@;
            let no = v == "0"@ || v == "false"@ || v == "off"@ || v == "no"@;
            &&& yes ==> flag == Some(true)
            &&& !yes && no ==> flag == Some(false)
            &&& !yes && !no ==> flag is None
        }),
        setting is None ==> !on,
        setting matches Some(text) ==> {
            let v = lower_all(text@);
            on <==> v == "1"@ || v == "true"@ || v == "on"@ || v == "yes"@
        },
{
}

// ---------------------------------------------------------------------------
// The command line before the environment, the environment before the file
// ---------------------------------------------------------------------------

/// The first value, unless it is missing or empty.
pub open spec fn rather(first: Option<Seq<char>>, second: Option<Seq<char>>) -> Option<Seq<char>> {
    if first is Some && first->0.len() > 0 {
        first
    } else {
        second
    }
}

/// A value that is not empty.
pub open spec fn filled(value: Option<Seq<char>>) -> Option<Seq<char>> {
    rather(value, None)
}

/// What the three sources give for one setting.
pub open spec fn chosen(sources: Sources, option: Seq<char>, env: Seq<char>, file: Seq<char>) -> Option<Seq<char>> {
    rather(
        value_in(sources.options@, option),
        rather(value_in(sources.env@, env), filled(value_in(sources.file@, file))),
    )
}

/// What they give where it has two names in the file.
pub open spec fn chosen_of_two(
    sources: Sources,
    option: Seq<char>,
    env: Seq<char>,
    file: Seq<char>,
    other: Seq<char>,
) -> Option<Seq<char>> {
    rather(
        value_in(sources.options@, option),
        rather(
            value_in(sources.env@, env),
            rather(value_in(sources.file@, file), filled(value_in(sources.file@, other))),
        ),
    )
}

/// The value, or what stands in for it.
pub open spec fn or_else(value: Option<Seq<char>>, default: Seq<char>) -> Seq<char> {
    match value {
        Some(value) => value,
        None => default,
    }
}

proof fn lemma_chosen(sources: Sources, option: &'static str, env: &'static str, file: &'static str)
    ensures
        sources.picked(crate::settings::places(option, env, file)) == chosen(sources, option@, env@, file@),
{
    let list = crate::settings::places(option, env, file);
    reveal_with_fuel(Sources::picked, 5);
    assert(list.skip(1) =~= seq![Place::Env(env), Place::File(file)]);
    assert(list.skip(1).skip(1) =~= seq![Place::File(file)]);
    assert(list.skip(1).skip(1).skip(1) =~= Seq::<Place>::empty());
}

proof fn lemma_chosen_of_two(
    sources: Sources,
    option: &'static str,
    env: &'static str,
    file: &'static str,
    other: &'static str,
)
    ensures
        sources.picked(seq![Place::Option(option), Place::Env(env), Place::File(file), Place::File(other)])
            == chosen_of_two(sources, option@, env@, file@, other@),
{
    let list = seq![Place::Option(option), Place::Env(env), Place::File(file), Place::File(other)];
    reveal_with_fuel(Sources::picked, 6);
    assert(list.skip(1) =~= seq![Place::Env(env), Place::File(file), Place::File(other)]);
    assert(list.skip(1).skip(1) =~= seq![Place::File(file), Place::File(other)]);
    assert(list.skip(1).skip(1).skip(1) =~= seq![Place::File(other)]);
    assert(list.skip(1).skip(1).skip(1).skip(1) =~= Seq::<Place>::empty());
}

/// The command line has the first word, the environment the second, the file
/// the last; a value that is empty counts as none.
pub proof fn law_precedence(
    sources: &Sources,
    option: &'static str,
    env: &'static str,
    file: &'static str,
    default: &str,
    value: Option<String>,
    settled: String,
    psk: Option<String>,
)
    requires
        call_ensures(pick_three, (sources, option, env, file), value),
        call_ensures(pick_three_or, (sources, option, env, file, default), settled),
        call_ensures(pick_psk, (sources,), psk),
    ensures
        text_of(value) == chosen(*sources, option@, env@, file@),
        settled@ == or_else(chosen(*sources, option@, env@, file@), default@),
        text_of(psk) == chosen_of_two(*sources, "psk"@, "PAYPHONE_OBFS_PSK"@, "psk"@, "obfs_psk"@),
{
    lemma_chosen(*sources, option, env, file);
    lemma_chosen_of_two(*sources, "psk", "PAYPHONE_OBFS_PSK", "psk", "obfs_psk");
}

/// What the client does, setting by setting.
pub proof fn law_client_settings(
    args: &Arguments,
    sources: &Sources,
    key_file: Option<&Vec<u8>>,
    s: ClientSettings,
)
    requires
        call_ensures(resolve_client, (args, sources, key_file), Ok::<ClientSettings, SettingsError>(s)),
    ensures
        s.server@ == or_else(
            chosen_of_two(*sources, "server"@, "PAYPHONE_SERVER_ADDR"@, "server"@, "server_addr"@),
            "127.0.0.1:40404"@,
        ),
        text_of(s.tcp_server) == chosen(*sources, "tcp-server"@, "PAYPHONE_TCP_SERVER_ADDR"@, "tcp_server"@),
        Some(s.psk@) == chosen_of_two(*sources, "psk"@, "PAYPHONE_OBFS_PSK"@, "psk"@, "obfs_psk"@),
        s.token@ == or_else(chosen(*sources, "token"@, "PAYPHONE_TOKEN"@, "token"@), "subscription.token"@),
        s.session@ == or_else(
            chosen(*sources, "session"@, "PAYPHONE_SESSION_FILE"@, "session"@),
            ".payphone-session"@,
        ),
        s.transport == TransportKind::Tls <==> {
            let t = lower_all(or_else(chosen(*sources, "transport"@, "PAYPHONE_TRANSPORT"@, "transport"@), "quic"@));
            (t == "tls"@ || t == "https"@ || t == "tcp"@) && t != "quic"@ && t != "udp"@
        },
        args.switch ==> s.kill_switch,
        args.dev ==> s.dev_mode,
        s.kill_switch && !args.switch ==> says_on(value_in(sources.env@, "PAYPHONE_KILL_SWITCH"@)) || says_on(
            value_in(sources.file@, "kill_switch"@),
        ) || says_on(value_in(sources.file@, "killswitch"@)),
        says_on(value_in(sources.env@, "PAYPHONE_KILL_SWITCH"@)) || says_on(value_in(sources.file@, "kill_switch"@))
            || says_on(value_in(sources.file@, "killswitch"@)) ==> s.kill_switch,
        s.dev_mode && !args.dev ==> says_on(value_in(sources.env@, "PAYPHONE_DEV_MODE"@)) || says_on(
            value_in(sources.file@, "dev"@),
        ) || says_on(value_in(sources.file@, "dev_mode"@)),
        says_on(value_in(sources.env@, "PAYPHONE_DEV_MODE"@)) || says_on(value_in(sources.file@, "dev"@)) || says_on(
            value_in(sources.file@, "dev_mode"@),
        ) ==> s.dev_mode,
        s.tls.reality is Some <==> chosen_of_two(
            *sources,
            "reality-pubkey"@,
            "PAYPHONE_REALITY_PUBLIC_KEY"@,
            "reality_public_key"@,
            "reality_pubkey"@,
        ) is Some,
        s.tls.reality matches Some(reality) ==> s.tls.server_name@ == reality.server_name@,
        s.tls.reality is None && chosen_of_two(*sources, "sni"@, "PAYPHONE_SERVER_NAME"@, "sni"@, "server_name"@) is Some
            ==> s.tls.server_name@ == chosen_of_two(
            *sources,
            "sni"@,
            "PAYPHONE_SERVER_NAME"@,
            "sni"@,
            "server_name"@,
        )->0,
        chosen(*sources, "tls-ca"@, "PAYPHONE_TLS_CA"@, "tls_ca"@) matches Some(value) ==> (lower_all(value)
            == "public"@ || lower_all(value) == "webpki"@ || lower_all(value) == "system"@ || lower_all(value) == "1"@
            || lower_all(value) == "true"@ <==> s.tls.use_webpki),
{
    lemma_chosen_of_two(*sources, "server", "PAYPHONE_SERVER_ADDR", "server", "server_addr");
    lemma_chosen(*sources, "tcp-server", "PAYPHONE_TCP_SERVER_ADDR", "tcp_server");
    lemma_chosen_of_two(*sources, "psk", "PAYPHONE_OBFS_PSK", "psk", "obfs_psk");
    lemma_chosen(*sources, "token", "PAYPHONE_TOKEN", "token");
    lemma_chosen(*sources, "session", "PAYPHONE_SESSION_FILE", "session");
    lemma_chosen(*sources, "transport", "PAYPHONE_TRANSPORT", "transport");
    lemma_chosen(*sources, "tls-ca", "PAYPHONE_TLS_CA", "tls_ca");
    lemma_chosen_of_two(
        *sources,
        "reality-pubkey",
        "PAYPHONE_REALITY_PUBLIC_KEY",
        "reality_public_key",
        "reality_pubkey",
    );
    lemma_chosen_of_two(*sources, "sni", "PAYPHONE_SERVER_NAME", "sni", "server_name");
}

/// A value that is there and says on.
pub open spec fn says_on(value: Option<Seq<char>>) -> bool {
    value matches Some(value) && {
        let v = lower_all(value);
        v == "1"@ || v == "true"@ || v == "on"@ || v == "yes"@
    }
}

/// A client needs a passphrase and a transport that it knows, and beside a
/// REALITY key a short id.
pub proof fn law_client_settings_are_checked(
    args: &Arguments,
    sources: &Sources,
    key_file: Option<&Vec<u8>>,
    out: Result<ClientSettings, SettingsError>,
)
    requires
        call_ensures(resolve_client, (args, sources, key_file), out),
    ensures
        ({
            let t = lower_all(or_else(chosen(*sources, "transport"@, "PAYPHONE_TRANSPORT"@, "transport"@), "quic"@));
            let known = t == "quic"@ || t == "udp"@ || t == "tls"@ || t == "https"@ || t == "tcp"@;
            let psk = chosen_of_two(*sources, "psk"@, "PAYPHONE_OBFS_PSK"@, "psk"@, "obfs_psk"@);
            let key = chosen_of_two(
                *sources,
                "reality-pubkey"@,
                "PAYPHONE_REALITY_PUBLIC_KEY"@,
                "reality_public_key"@,
                "reality_pubkey"@,
            );
            let short = chosen(*sources, "reality-short-id"@, "PAYPHONE_REALITY_SHORT_ID"@, "reality_short_id"@);
            &&& !known <==> out == Err::<ClientSettings, SettingsError>(SettingsError::UnknownTransport)
            &&& known && psk is None <==> out == Err::<ClientSettings, SettingsError>(SettingsError::NoPsk)
            &&& known && psk is Some && key is Some && short is None <==> out == Err::<ClientSettings, SettingsError>(
                SettingsError::NoClientShortId,
            )
            &&& known && psk is Some && key is None ==> out is Ok
        }),
{
    lemma_chosen_of_two(*sources, "psk", "PAYPHONE_OBFS_PSK", "psk", "obfs_psk");
    lemma_chosen(*sources, "transport", "PAYPHONE_TRANSPORT", "transport");
    lemma_chosen(*sources, "reality-short-id", "PAYPHONE_REALITY_SHORT_ID", "reality_short_id");
    lemma_chosen_of_two(
        *sources,
        "reality-pubkey",
        "PAYPHONE_REALITY_PUBLIC_KEY",
        "reality_public_key",
        "reality_pubkey",
    );
}

/// What the server does, setting by setting.
pub proof fn law_server_settings(
    args: &Arguments,
    sources: &Sources,
    key_file: Option<&Vec<u8>>,
    short_file: &Option<String>,
    container: bool,
    s: ServerSettings,
)
    requires
        call_ensures(
            resolve_server,
            (args, sources, key_file, short_file, container),
            Ok::<ServerSettings, SettingsError>(s),
        ),
    ensures
        s.bind@ == or_else(
            chosen_of_two(*sources, "bind"@, "PAYPHONE_BIND_ADDR"@, "bind"@, "bind_addr"@),
            "127.0.0.1:40404"@,
        ),
        text_of(s.tcp_bind) == chosen_of_two(
            *sources,
            "tcp-bind"@,
            "PAYPHONE_TCP_BIND_ADDR"@,
            "tcp_bind"@,
            "tcp_bind_addr"@,
        ),
        Some(s.psk@) == chosen_of_two(*sources, "psk"@, "PAYPHONE_OBFS_PSK"@, "psk"@, "obfs_psk"@),
        s.auth_key@ == or_else(
            chosen(*sources, "auth-key"@, "PAYPHONE_AUTH_KEY"@, "auth_key"@),
            "auth-keys/subscription-public.key"@,
        ),
        text_of(s.dns_upstream) == chosen(*sources, "dns-upstream"@, "PAYPHONE_DNS_UPSTREAM"@, "dns_upstream"@),
        text_of(s.session_store) == chosen(*sources, "session-store"@, "PAYPHONE_SESSION_STORE"@, "session_store"@),
        s.revoke_file@ == or_else(
            chosen(*sources, "revoke-file"@, "PAYPHONE_REVOKE_FILE"@, "revoke_file"@),
            "auth-keys/revoked-token-ids.txt"@,
        ),
        s.dev_mode <==> args.dev || says_on(value_in(sources.env@, "PAYPHONE_DEV_MODE"@)) || (value_in(
            sources.file@,
            "dev"@,
        ) matches Some(v) && (v == "1"@ || lower_all(v) == lower_all("true"@))),
        s.tls.acme_staging <==> args.switch || says_on(value_in(sources.env@, "PAYPHONE_ACME_STAGING"@)) || (value_in(
            sources.file@,
            "acme_staging"@,
        ) matches Some(v) && (v == "1"@ || lower_all(v) == lower_all("true"@))),
        text_of(s.tls.acme_domain) == chosen(*sources, "tls-domain"@, "PAYPHONE_TLS_DOMAIN"@, "tls_domain"@),
        text_of(s.tls.acme_email) == chosen(*sources, "acme-email"@, "PAYPHONE_ACME_EMAIL"@, "acme_email"@),
        chosen(*sources, "tls-cert"@, "PAYPHONE_TLS_CERT"@, "tls_cert"@) matches Some(path) ==> s.tls.cert_path@ == path,
        chosen(*sources, "tls-key"@, "PAYPHONE_TLS_KEY"@, "tls_key"@) matches Some(path) ==> s.tls.key_path@ == path,
        chosen(*sources, "acme-dir"@, "PAYPHONE_ACME_DIR"@, "acme_dir"@) matches Some(path) ==> s.tls.acme_dir@ == path,
        s.reality is Some <==> says_on(chosen(*sources, "reality"@, "PAYPHONE_REALITY"@, "reality"@)),
        s.reality matches Some(reality) ==> {
            &&& Some(reality.dest@) == chosen(*sources, "reality-dest"@, "PAYPHONE_REALITY_DEST"@, "reality_dest"@)
            &&& reality.max_time_diff_ms == 120_000
            &&& reality.short_ids@.len() > 0
        },
{
    lemma_chosen_of_two(*sources, "bind", "PAYPHONE_BIND_ADDR", "bind", "bind_addr");
    lemma_chosen_of_two(*sources, "tcp-bind", "PAYPHONE_TCP_BIND_ADDR", "tcp_bind", "tcp_bind_addr");
    lemma_chosen_of_two(*sources, "psk", "PAYPHONE_OBFS_PSK", "psk", "obfs_psk");
    lemma_chosen(*sources, "auth-key", "PAYPHONE_AUTH_KEY", "auth_key");
    lemma_chosen(*sources, "dns-upstream", "PAYPHONE_DNS_UPSTREAM", "dns_upstream");
    lemma_chosen(*sources, "session-store", "PAYPHONE_SESSION_STORE", "session_store");
    lemma_chosen(*sources, "revoke-file", "PAYPHONE_REVOKE_FILE", "revoke_file");
    lemma_chosen(*sources, "tls-domain", "PAYPHONE_TLS_DOMAIN", "tls_domain");
    lemma_chosen(*sources, "acme-email", "PAYPHONE_ACME_EMAIL", "acme_email");
    lemma_chosen(*sources, "tls-cert", "PAYPHONE_TLS_CERT", "tls_cert");
    lemma_chosen(*sources, "tls-key", "PAYPHONE_TLS_KEY", "tls_key");
    lemma_chosen(*sources, "acme-dir", "PAYPHONE_ACME_DIR", "acme_dir");
    lemma_chosen(*sources, "reality", "PAYPHONE_REALITY", "reality");
    lemma_chosen(*sources, "reality-dest", "PAYPHONE_REALITY_DEST", "reality_dest");
    if let Some(reality) = s.reality {
        assert(crate::transport::reality::keys::id_views(reality.short_ids@).len() == reality.short_ids@.len());
    }
}

/// The HTTPS front is off where that is said, at the address that is set, or
/// at the UDP port; where that is 40404, at 40443. The client looks for it at
/// the same port.
pub proof fn law_ports(setting: &str, udp_port: u16, given: TcpBind, own: TcpBind, port: u16)
    requires
        call_ensures(tcp_bind_rule, (Some(setting), udp_port), given),
        call_ensures(tcp_bind_rule, (None::<&str>, udp_port), own),
        call_ensures(tls_connect_port, (udp_port,), port),
    ensures
        setting@ == "off"@ || lower_all(setting@) == lower_all("false"@) ==> given is Off,
        setting@ != "off"@ && lower_all(setting@) != lower_all("false"@) ==> (given matches TcpBind::At(address)
            && address@ == setting@),
        own == TcpBind::Port(port),
        udp_port == 40404 ==> port == 40443,
        udp_port != 40404 ==> port == udp_port,
{
}

/// Sessions are kept where that is set, or in the state of a container, or
/// beside the program. A settings file that is not there matters only where
/// the command line names it.
pub proof fn law_files(setting: Option<String>, container: bool, path: String, named: bool, there: bool, step: FileStep)
    requires
        call_ensures(session_store_path, (setting, container), path),
        call_ensures(file_step, (named, there), step),
    ensures
        setting matches Some(set) ==> path@ == set@,
        setting is None && container ==> path@ == "/app/state/sessions.bin"@,
        setting is None && !container ==> path@ == "payphone-sessions.bin"@,
        there <==> step == FileStep::Read,
        !there && named <==> step == FileStep::Missing,
{
}

// ---------------------------------------------------------------------------
// The command line
// ---------------------------------------------------------------------------

/// A word that was taken by itself is taken the same way whatever follows.
proof fn lemma_alone(words: Words, args: ArgumentsSpec, word: Seq<char>, next: Seq<char>)
    ensures
        with_word(words, args, word, None) is Ok ==> {
            &&& with_word(words, args, word, None)->Ok_0.1 == false
            &&& with_word(words, args, word, Some(next)) == with_word(words, args, word, None)
        },
{
    if word.len() >= 1 {
        lemma_shorts_alone(words, args, word.skip(1), next);
    }
}

proof fn lemma_shorts_alone(words: Words, args: ArgumentsSpec, flags: Seq<char>, next: Seq<char>)
    ensures
        with_shorts(words, args, flags, None) is Ok ==> {
            &&& with_shorts(words, args, flags, None)->Ok_0.1 == false
            &&& with_shorts(words, args, flags, Some(next)) == with_shorts(words, args, flags, None)
        },
    decreases flags.len(),
{
    if flags.len() > 0 && flags[0] == 'h' {
        lemma_shorts_alone(words, ArgumentsSpec { help: true, ..args }, flags.skip(1), next);
    }
}

/// What is read first does not depend on what comes after it.
proof fn lemma_words_apart(words: Words, args: ArgumentsSpec, a: Seq<Seq<char>>, b: Seq<Seq<char>>)
    requires
        with_words(words, args, a) is Ok,
    ensures
        with_words(words, args, a + b) == with_words(words, with_words(words, args, a)->Ok_0, b),
    decreases a.len(),
{
    let both = a + b;
    if a.len() == 0 {
        assert(both =~= b);
    } else if a.len() == 1 {
        if b.len() > 0 {
            lemma_alone(words, args, a[0], b[0]);
            assert(both[1] == b[0]);
        }
        assert(both.skip(1) =~= b);
        assert(a.skip(1) =~= Seq::<Seq<char>>::empty());
        let one = with_word(words, args, a[0], None);
        assert(one is Ok);
        lemma_alone(words, args, a[0], a[0]);
        let next = one->Ok_0.0;
        assert(with_words(words, next, a.skip(1)) == crate::settings::ArgSpec::Ok(next));
        assert(with_words(words, args, a) == crate::settings::ArgSpec::Ok(next));
        if b.len() == 0 {
            assert(both =~= a);
            assert(b =~= Seq::<Seq<char>>::empty());
        }
    } else {
        let used = with_word(words, args, a[0], Some(a[1]));
        assert(both[0] == a[0] && both[1] == a[1]);
        if let Ok((next, two)) = used {
            if two {
                assert(both.skip(2) =~= a.skip(2) + b);
                lemma_words_apart(words, next, a.skip(2), b);
            } else {
                assert(both.skip(1) =~= a.skip(1) + b);
                lemma_words_apart(words, next, a.skip(1), b);
            }
        }
    }
}

/// One word more: what it makes of what was read before.
proof fn lemma_one_more(words: Words, args: ArgumentsSpec, word: Seq<char>)
    ensures
        with_words(words, args, seq![word]) == (match with_word(words, args, word, None) {
            Ok((args, _)) => crate::settings::ArgSpec::Ok(args),
            Err(error) => crate::settings::ArgSpec::Err(error),
        }),
{
    let rest = seq![word];
    assert(rest.skip(1) =~= Seq::<Seq<char>>::empty());
    reveal_with_fuel(with_words, 3);
    lemma_alone(words, args, word, word);
}

/// Two words more, where the first takes the second for its value.
proof fn lemma_two_more(words: Words, args: ArgumentsSpec, word: Seq<char>, value: Seq<char>)
    requires
        with_word(words, args, word, Some(value)) matches Ok((_, true)),
    ensures
        with_words(words, args, seq![word, value]) == crate::settings::ArgSpec::Ok(
            with_word(words, args, word, Some(value))->Ok_0.0,
        ),
{
    let rest = seq![word, value];
    assert(rest.skip(2) =~= Seq::<Seq<char>>::empty());
    reveal_with_fuel(with_words, 3);
}

/// `--name=value`.
proof fn lemma_long(word: Seq<char>, name: Seq<char>, value: Seq<char>)
    requires
        word == seq!['-', '-'] + name.push('=') + value,
        !name.contains('='),
    ensures
        word.len() >= 2,
        word[0] == '-',
        word[1] == '-',
        first_place(word.skip(2), '=') == Some(name.len() as int),
        word.skip(2).take(name.len() as int) == name,
        word.skip(2).skip(name.len() as int + 1) == value,
{
    let flag = word.skip(2);
    assert(flag =~= name.push('=') + value);
    lemma_first_place(flag, '=');
    assert(flag[name.len() as int] == '=');
    let at = first_place(flag, '=')->0;
    if at < name.len() {
        assert(name.contains(name[at]));
    }
    assert(flag.take(at) =~= name);
    assert(flag.skip(at + 1) =~= value);
}

/// `--name`.
proof fn lemma_bare_long(word: Seq<char>, name: Seq<char>)
    requires
        word == seq!['-', '-'] + name,
        !name.contains('='),
    ensures
        word.len() >= 2,
        word[0] == '-',
        word[1] == '-',
        first_place(word.skip(2), '=') is None,
        word.skip(2) == name,
{
    let flag = word.skip(2);
    assert(flag =~= name);
    lemma_first_place(flag, '=');
    if let Some(at) = first_place(flag, '=') {
        assert(name.contains(name[at]));
    }
}

/// Whether a client's option takes a value.
pub open spec fn client_option(name: Seq<char>) -> bool {
    name == "server"@ || name == "tcp-server"@ || name == "transport"@ || name == "psk"@ || name == "token"@ || name
        == "session"@ || name == "sni"@ || name == "tls-pin"@ || name == "tls-ca"@ || name == "reality-pubkey"@ || name
        == "reality-short-id"@ || name == "reality-sni"@ || name == "config"@
}

proof fn lemma_client_option(name: Seq<char>)
    ensures
        crate::client::settings::client_words().options.contains(name) <==> client_option(name),
{
    let o = crate::client::settings::client_words().options;
    assert(o[0] == "server"@ && o[1] == "tcp-server"@ && o[2] == "transport"@ && o[3] == "psk"@ && o[4] == "token"@);
    assert(o[5] == "session"@ && o[6] == "sni"@ && o[7] == "tls-pin"@ && o[8] == "tls-ca"@);
    assert(o[9] == "reality-pubkey"@ && o[10] == "reality-short-id"@ && o[11] == "reality-sni"@ && o[12] == "config"@);
    if o.contains(name) {
        let i = o.index_of(name);
        assert(o[i] == name);
        assert(o.len() == 13);
    }
}

/// Whether a server's option takes a value.
pub open spec fn server_option(name: Seq<char>) -> bool {
    name == "bind"@ || name == "tcp-bind"@ || name == "psk"@ || name == "tls-cert"@ || name == "tls-key"@ || name
        == "tls-san"@ || name == "tls-domain"@ || name == "acme-email"@ || name == "acme-dir"@ || name == "auth-key"@
        || name == "dns-upstream"@ || name == "session-store"@ || name == "revoke-file"@ || name == "reality"@ || name
        == "reality-dest"@ || name == "reality-private-key"@ || name == "reality-short-id"@ || name == "config"@
}

proof fn lemma_server_option(name: Seq<char>)
    ensures
        crate::server::settings::server_words().options.contains(name) <==> server_option(name),
{
    let o = crate::server::settings::server_words().options;
    assert(o[0] == "bind"@ && o[1] == "tcp-bind"@ && o[2] == "psk"@ && o[3] == "tls-cert"@ && o[4] == "tls-key"@);
    assert(o[5] == "tls-san"@ && o[6] == "tls-domain"@ && o[7] == "acme-email"@ && o[8] == "acme-dir"@);
    assert(o[9] == "auth-key"@ && o[10] == "dns-upstream"@ && o[11] == "session-store"@ && o[12] == "revoke-file"@);
    assert(o[13] == "reality"@ && o[14] == "reality-dest"@ && o[15] == "reality-private-key"@);
    assert(o[16] == "reality-short-id"@ && o[17] == "config"@);
    if o.contains(name) {
        let i = o.index_of(name);
        assert(o[i] == name);
        assert(o.len() == 18);
    }
}

/// `--name=value` at the end of a client's command line adds that option and
/// changes nothing else; `--kill-switch=value` sets the switch; a name that
/// the client does not know is refused.
pub proof fn law_client_option(
    input: &Vec<String>,
    args: Arguments,
    more: &Vec<String>,
    out: Result<Arguments, ArgError>,
    name: Seq<char>,
    value: Seq<char>,
)
    requires
        call_ensures(read_client_arguments, (input,), Ok::<Arguments, ArgError>(args)),
        call_ensures(read_client_arguments, (more,), out),
        string_views(more@) == string_views(input@) + seq![seq!['-', '-'] + name.push('=') + value],
        !name.contains('='),
    ensures
        client_option(name) && name != "kill-switch"@ ==> (out matches Ok(after) && after@ == (ArgumentsSpec {
            options: args@.options.push((name, value)),
            ..args@
        })),
        name == "kill-switch"@ && says_on(Some(value)) ==> (out matches Ok(after) && after@ == (ArgumentsSpec {
            switch: true,
            ..args@
        })),
        !client_option(name) && name != "kill-switch"@ && name != "reality-public-key"@ ==> (out matches Err(error)
            && error.fault == ArgFault::UnknownOption && error.word@ == name),
        name == "reality-public-key"@ && !client_option(name) && name != "kill-switch"@ ==> (out matches Ok(after)
            && after@ == (ArgumentsSpec { options: args@.options.push(("reality-pubkey"@, value)), ..args@ })),
{
    let words = crate::client::settings::client_words();
    let word = seq!['-', '-'] + name.push('=') + value;
    lemma_words_apart(words, crate::settings::no_arguments(), string_views(input@), seq![word]);
    lemma_one_more(words, args@, word);
    lemma_long(word, name, value);
    lemma_client_option(name);
    assert(words.aliases.drop_last() =~= Seq::<(Seq<char>, Seq<char>)>::empty());
    reveal_with_fuel(value_in, 3);
}

/// `--name=value` at the end of a server's command line adds that option and
/// changes nothing else; `--acme-staging=value` sets the switch, to off where
/// the value says neither; a name that the server does not know is refused.
pub proof fn law_server_option(
    input: &Vec<String>,
    args: Arguments,
    more: &Vec<String>,
    out: Result<Arguments, ArgError>,
    name: Seq<char>,
    value: Seq<char>,
)
    requires
        call_ensures(read_server_arguments, (input,), Ok::<Arguments, ArgError>(args)),
        call_ensures(read_server_arguments, (more,), out),
        string_views(more@) == string_views(input@) + seq![seq!['-', '-'] + name.push('=') + value],
        !name.contains('='),
    ensures
        server_option(name) && name != "acme-staging"@ ==> (out matches Ok(after) && after@ == (ArgumentsSpec {
            options: args@.options.push((name, value)),
            ..args@
        })),
        name == "acme-staging"@ ==> (out matches Ok(after) && after@ == (ArgumentsSpec {
            switch: says_on(Some(value)),
            ..args@
        })),
        !server_option(name) && name != "acme-staging"@ ==> (out matches Err(error) && error.fault
            == ArgFault::UnknownOption && error.word@ == name),
{
    let words = crate::server::settings::server_words();
    let word = seq!['-', '-'] + name.push('=') + value;
    lemma_words_apart(words, crate::settings::no_arguments(), string_views(input@), seq![word]);
    lemma_one_more(words, args@, word);
    lemma_long(word, name, value);
    lemma_server_option(name);
}

/// The same option may stand in two words, and the three switches in one; a
/// word without a dash is refused.
pub proof fn law_client_words(
    input: &Vec<String>,
    args: Arguments,
    more: &Vec<String>,
    out: Result<Arguments, ArgError>,
    name: Seq<char>,
    value: Seq<char>,
    word: Seq<char>,
)
    requires
        call_ensures(read_client_arguments, (input,), Ok::<Arguments, ArgError>(args)),
        call_ensures(read_client_arguments, (more,), out),
        !name.contains('='),
    ensures
        ({
            let start = string_views(input@);
            let all = string_views(more@);
            let long = seq!['-', '-'] + name;
            &&& client_option(name) && name != "kill-switch"@ && name != "help"@ && name != "dev"@ && all == start + seq![
                long,
                value,
            ] ==> (out matches Ok(after) && after@ == (ArgumentsSpec {
                options: args@.options.push((name, value)),
                ..args@
            }))
            &&& all == start + seq![long] && name == "help"@ ==> (out matches Ok(after) && after@ == (ArgumentsSpec {
                help: true,
                ..args@
            }))
            &&& all == start + seq![long] && name == "dev"@ && name != "help"@ ==> (out matches Ok(after) && after@ == (
            ArgumentsSpec { dev: true, ..args@ }))
            &&& all == start + seq![long] && name == "kill-switch"@ && name != "help"@ && name != "dev"@ ==> (
            out matches Ok(after) && after@ == (ArgumentsSpec { switch: true, ..args@ }))
            &&& all == start + seq![long] && client_option(name) && name != "kill-switch"@ && name != "help"@ && name
                != "dev"@ ==> (out matches Err(error) && error.fault == ArgFault::MissingValue && error.word@ == name)
            &&& all == start + seq![word] && word.len() > 0 && word[0] != '-' ==> (out matches Err(error)
                && error.fault == ArgFault::Unexpected && error.word@ == word)
            &&& all == start + seq![seq!['-', 's'], value] ==> (out matches Ok(after) && after@ == (ArgumentsSpec {
                options: args@.options.push(("server"@, value)),
                ..args@
            }))
            &&& all == start + seq![seq!['-', 't'], value] ==> (out matches Ok(after) && after@ == (ArgumentsSpec {
                options: args@.options.push(("token"@, value)),
                ..args@
            }))
            &&& all == start + seq![seq!['-', 'c'], value] ==> (out matches Ok(after) && after@ == (ArgumentsSpec {
                options: args@.options.push(("config"@, value)),
                ..args@
            }))
            &&& all == start + seq![seq!['-', 'h']] ==> (out matches Ok(after) && after@ == (ArgumentsSpec {
                help: true,
                ..args@
            }))
        }),
{
    let words = crate::client::settings::client_words();
    let none = crate::settings::no_arguments();
    let start = string_views(input@);
    let all = string_views(more@);
    let long = seq!['-', '-'] + name;
    lemma_bare_long(long, name);
    lemma_client_option(name);
    lemma_words_apart(words, none, start, seq![long]);
    lemma_one_more(words, args@, long);
    lemma_words_apart(words, none, start, seq![word]);
    lemma_one_more(words, args@, word);
    if client_option(name) && name != "kill-switch"@ && name != "help"@ && name != "dev"@ {
        lemma_words_apart(words, none, start, seq![long, value]);
        lemma_two_more(words, args@, long, value);
    }
    lemma_short_word(words, args@, 's', "server"@, value);
    lemma_short_word(words, args@, 't', "token"@, value);
    lemma_short_word(words, args@, 'c', "config"@, value);
    lemma_words_apart(words, none, start, seq![seq!['-', 's'], value]);
    lemma_words_apart(words, none, start, seq![seq!['-', 't'], value]);
    lemma_words_apart(words, none, start, seq![seq!['-', 'c'], value]);
    let h = seq!['-', 'h'];
    lemma_words_apart(words, none, start, seq![h]);
    lemma_one_more(words, args@, h);
    assert(h.skip(1) =~= seq!['h']);
    assert(h.skip(1).skip(1) =~= Seq::<char>::empty());
    reveal_with_fuel(with_shorts, 3);
}

proof fn lemma_short_word(words: Words, args: ArgumentsSpec, c: char, option: Seq<char>, value: Seq<char>)
    requires
        words.shorts == seq![('s', "server"@), ('t', "token"@), ('c', "config"@)],
        words.clusters,
        c == 's' && option == "server"@ || c == 't' && option == "token"@ || c == 'c' && option == "config"@,
    ensures
        with_words(words, args, seq![seq!['-', c], value]) == crate::settings::ArgSpec::Ok(
            ArgumentsSpec { options: args.options.push((option, value)), ..args },
        ),
{
    let word = seq!['-', c];
    assert(word.skip(1) =~= seq![c]);
    assert(words.shorts.skip(1) =~= seq![('t', "token"@), ('c', "config"@)]);
    assert(words.shorts.skip(1).skip(1) =~= seq![('c', "config"@)]);
    reveal_with_fuel(crate::settings::short_for, 5);
    reveal_with_fuel(with_shorts, 3);
    lemma_two_more(words, args, word, value);
}

// ---------------------------------------------------------------------------
// What follows from other settings
// ---------------------------------------------------------------------------

/// Without a name of its own the server's certificate is for `localhost`; the
/// domain that a certificate is asked for is one of its names, once.
pub proof fn law_certificate_names(
    args: &Arguments,
    sources: &Sources,
    key_file: Option<&Vec<u8>>,
    short_file: &Option<String>,
    container: bool,
    s: ServerSettings,
    i: int,
)
    requires
        call_ensures(
            resolve_server,
            (args, sources, key_file, short_file, container),
            Ok::<ServerSettings, SettingsError>(s),
        ),
    ensures
        ({
            let list = chosen(*sources, "tls-san"@, "PAYPHONE_TLS_SAN"@, "tls_san"@);
            let domain = chosen(*sources, "tls-domain"@, "PAYPHONE_TLS_DOMAIN"@, "tls_domain"@);
            &&& list is None && domain is None ==> string_views(s.tls.sans@) == seq!["localhost"@]
            &&& list is None && domain is Some && lower_all(domain->0) != lower_all("localhost"@) ==> string_views(
                s.tls.sans@,
            ) == seq!["localhost"@, domain->0]
            &&& list is None && domain is Some && lower_all(domain->0) == lower_all("localhost"@) ==> string_views(
                s.tls.sans@,
            ) == seq!["localhost"@]
            &&& domain is Some ==> exists|k: int|
                0 <= k < s.tls.sans@.len() && lower_all((#[trigger] s.tls.sans@[k])@) == lower_all(domain->0)
            &&& list is Some && !list->0.contains(',') && trim(list->0).len() > 0 ==> s.tls.sans@.len() > 0
                && s.tls.sans@[0]@ == trim(list->0)
        }),
        chosen(*sources, "tls-cert"@, "PAYPHONE_TLS_CERT"@, "tls_cert"@) is None ==> s.tls.cert_path@
            == "dev-certs/payphone-cert.der"@,
        chosen(*sources, "tls-key"@, "PAYPHONE_TLS_KEY"@, "tls_key"@) is None ==> s.tls.key_path@
            == "dev-certs/payphone-key.der"@,
        chosen(*sources, "acme-dir"@, "PAYPHONE_ACME_DIR"@, "acme_dir"@) is None ==> s.tls.acme_dir@ == (if container {
            "/app/state/acme"@
        } else {
            "dev-certs/acme"@
        }),
{
    lemma_chosen(*sources, "tls-san", "PAYPHONE_TLS_SAN", "tls_san");
    lemma_chosen(*sources, "tls-domain", "PAYPHONE_TLS_DOMAIN", "tls_domain");
    lemma_chosen(*sources, "tls-cert", "PAYPHONE_TLS_CERT", "tls_cert");
    lemma_chosen(*sources, "tls-key", "PAYPHONE_TLS_KEY", "tls_key");
    lemma_chosen(*sources, "acme-dir", "PAYPHONE_ACME_DIR", "acme_dir");
    let list = chosen(*sources, "tls-san"@, "PAYPHONE_TLS_SAN"@, "tls_san"@);
    let domain = chosen(*sources, "tls-domain"@, "PAYPHONE_TLS_DOMAIN"@, "tls_domain"@);
    let views = string_views(s.tls.sans@);
    let local = seq!["localhost"@];
    assert(local[0] == "localhost"@);
    assert(views.len() == s.tls.sans@.len());
    if let Some(value) = list {
        if !value.contains(',') && trim(value).len() > 0 {
            let comma = seq![','];
            assert forall|k: int| 0 <= k < value.len() implies !comma.contains(#[trigger] value[k]) by {
                if comma.contains(value[k]) {
                    assert(value[k] == ',');
                    assert(value.contains(value[k]));
                }
            }
            lemma_split_whole(value, comma);
            let pieces = seq![value];
            reveal_with_fuel(crate::transport::identity::names_in, 2);
            assert(pieces.drop_last() =~= Seq::<Seq<char>>::empty());
            assert(pieces.last() == value);
            let names = crate::transport::identity::sans_in(Some(value));
            assert(names =~= seq![trim(value)]);
            assert(views[0] == trim(value));
            assert(s.tls.sans@[0]@ == views[0]);
        }
    }
    if let Some(name) = domain {
        let names = match list {
            Some(value) => crate::transport::identity::sans_in(Some(value)),
            None => local,
        };
        if crate::server::settings::names_hold(names, name) {
            let k = choose|k: int| 0 <= k < names.len() && lower_all(#[trigger] names[k]) == lower_all(name);
            assert(views[k] == names[k]);
            assert(lower_all(s.tls.sans@[k]@) == lower_all(name));
        } else {
            let k = names.len() as int;
            assert(views[k] == name);
            assert(s.tls.sans@[k]@ == name);
        }
        if list is None {
            if lower_all(name) == lower_all("localhost"@) {
                assert(crate::server::settings::names_hold(local, name));
            } else {
                assert(!crate::server::settings::names_hold(local, name));
                assert(views =~= seq!["localhost"@, name]);
            }
        }
    }
}

/// The names that the server keeps for itself beside the site: those of its
/// certificate and its domain, but not the site's own, capital letters aside.
pub proof fn law_local_names(
    args: &Arguments,
    sources: &Sources,
    key_file: Option<&Vec<u8>>,
    short_file: &Option<String>,
    container: bool,
    s: ServerSettings,
    reality: RealityServerConfig,
    i: int,
    k: int,
)
    requires
        call_ensures(
            resolve_server,
            (args, sources, key_file, short_file, container),
            Ok::<ServerSettings, SettingsError>(s),
        ),
        s.reality == Some(reality),
        0 <= i < reality.local_names@.len(),
        0 <= k < s.tls.sans@.len(),
    ensures
        reality.server_names@.len() == 1,
        lower_all(reality.local_names@[i]@) != lower_all(reality.server_names@[0]@),
        reality.local_names@[i]@.len() > 0,
        (exists|m: int| 0 <= m < s.tls.sans@.len() && (#[trigger] s.tls.sans@[m])@ == reality.local_names@[i]@) || (
        s.tls.acme_domain matches Some(domain) && domain@ == reality.local_names@[i]@),
        s.tls.sans@[k]@.len() > 0 && lower_all(s.tls.sans@[k]@) != lower_all(reality.server_names@[0]@) ==> exists|
            m: int,
        |
            0 <= m < reality.local_names@.len() && (#[trigger] reality.local_names@[m])@ == s.tls.sans@[k]@,
{
    let views = string_views(reality.local_names@);
    let own = string_views(s.tls.sans@);
    assert(views[i] == reality.local_names@[i]@);
    assert(views.contains(views[i]));
    assert(crate::server::settings::is_local_name(s.tls, reality.dest@, views[i]));
    if own.contains(views[i]) {
        let m = own.index_of(views[i]);
        assert(s.tls.sans@[m]@ == views[i]);
    }
    assert(own[k] == s.tls.sans@[k]@);
    assert(own.contains(own[k]));
    if s.tls.sans@[k]@.len() > 0 && lower_all(s.tls.sans@[k]@) != lower_all(reality.server_names@[0]@) {
        assert(crate::server::settings::is_local_name(s.tls, reality.dest@, own[k]));
        assert(views.contains(own[k]));
        let m = views.index_of(own[k]);
        assert(reality.local_names@[m]@ == own[k]);
    }
}

/// The server's REALITY needs the site's address, a key and short ids; these
/// may stand in a file. It stands in for the site under the name in its
/// address.
pub proof fn law_reality_settings(
    args: &Arguments,
    sources: &Sources,
    key_file: Option<&Vec<u8>>,
    short_file: &Option<String>,
    container: bool,
    out: Result<ServerSettings, SettingsError>,
)
    requires
        call_ensures(resolve_server, (args, sources, key_file, short_file, container), out),
    ensures
        ({
            let psk = chosen_of_two(*sources, "psk"@, "PAYPHONE_OBFS_PSK"@, "psk"@, "obfs_psk"@);
            let on = says_on(chosen(*sources, "reality"@, "PAYPHONE_REALITY"@, "reality"@));
            let dest = chosen(*sources, "reality-dest"@, "PAYPHONE_REALITY_DEST"@, "reality_dest"@);
            let short = chosen(*sources, "reality-short-id"@, "PAYPHONE_REALITY_SHORT_ID"@, "reality_short_id"@);
            let no_ids = short is None && (short_file is None || trim(short_file->0@).len() == 0);
            &&& psk is None <==> out == Err::<ServerSettings, SettingsError>(SettingsError::NoPsk)
            &&& psk is Some && !on ==> out is Ok
            &&& psk is Some && on && dest is None <==> out == Err::<ServerSettings, SettingsError>(
                SettingsError::NoRealityDest,
            )
            &&& out == Err::<ServerSettings, SettingsError>(SettingsError::NoRealityShortId) ==> no_ids
            &&& on && no_ids ==> out is Err
            &&& out matches Ok(s) ==> (s.reality matches Some(reality) ==> {
                let text = if short is Some {
                    short->0
                } else {
                    trim(short_file->0@)
                };
                crate::transport::reality::keys::short_ids_in(split(text, seq![',', ' ', ';'])) == Ok::<
                    Seq<Seq<u8>>,
                    RealityKeyError,
                >(crate::transport::reality::keys::id_views(reality.short_ids@))
            })
        }),
{
    lemma_chosen_of_two(*sources, "psk", "PAYPHONE_OBFS_PSK", "psk", "obfs_psk");
    lemma_chosen(*sources, "reality", "PAYPHONE_REALITY", "reality");
    lemma_chosen(*sources, "reality-dest", "PAYPHONE_REALITY_DEST", "reality_dest");
    lemma_chosen(*sources, "reality-short-id", "PAYPHONE_REALITY_SHORT_ID", "reality_short_id");
}

/// A key is what the file of its name holds, where there is one, and else
/// what is written.
pub proof fn law_key_setting(
    key: &str,
    file: &Vec<u8>,
    bytes: &[u8],
    from_file: Result<[u8; 32], RealityKeyError>,
    in_file: Result<[u8; 32], RealityKeyError>,
    from_text: Result<[u8; 32], RealityKeyError>,
    in_text: Result<[u8; 32], RealityKeyError>,
)
    requires
        call_ensures(take_key, (key, Some(file)), from_file),
        call_ensures(take_key, (key, None::<&Vec<u8>>), from_text),
        bytes@ == file@,
        call_ensures(parse_32_bytes_raw, (bytes,), in_file),
        call_ensures(parse_32_bytes, (key,), in_text),
    ensures
        trim(key@).len() > 0 ==> (from_file is Ok <==> in_file is Ok),
        trim(key@).len() > 0 && in_file is Ok ==> from_file->Ok_0@ == in_file->Ok_0@,
        from_text is Ok <==> in_text is Ok,
        in_text is Ok ==> from_text->Ok_0@ == in_text->Ok_0@,
        trim(key@).len() == 0 ==> from_file is Err && from_text is Err,
{
}

/// Where no name is set, a client expects the server to go by the host of its
/// address, if that is a public name, and else by `localhost`; and trusts
/// public authorities for a public name. With REALITY it asks for the name
/// that is set for that, or else the same, without a port.
pub proof fn law_client_names(
    args: &Arguments,
    sources: &Sources,
    key_file: Option<&Vec<u8>>,
    s: ClientSettings,
    server: &str,
    host: Option<String>,
    name: &str,
    public: bool,
)
    requires
        call_ensures(resolve_client, (args, sources, key_file), Ok::<ClientSettings, SettingsError>(s)),
        server@ == s.server@,
        call_ensures(hostname_from_addr, (server,), host),
        call_ensures(looks_like_public_dns_name, (name,), public),
    ensures
        ({
            let set = chosen_of_two(*sources, "sni"@, "PAYPHONE_SERVER_NAME"@, "sni"@, "server_name"@);
            let ca = chosen(*sources, "tls-ca"@, "PAYPHONE_TLS_CA"@, "tls_ca"@);
            let plain = s.tls.reality is None;
            &&& plain && set is None && host is Some && name@ == host->0@ && public ==> s.tls.server_name@ == name@
            &&& plain && set is None && host is Some && name@ == host->0@ && !public ==> s.tls.server_name@
                == "localhost"@
            &&& plain && set is None && host is None ==> s.tls.server_name@ == "localhost"@
            &&& plain && ca is None && name@ == s.tls.server_name@ ==> s.tls.use_webpki == public
        }),
        ({
            let pin = rather(
                value_in(sources.options@, "tls-pin"@),
                rather(
                    value_in(sources.env@, "PAYPHONE_TLS_PIN"@),
                    rather(
                        value_in(sources.env@, "PAYPHONE_TLS_CERT"@),
                        rather(value_in(sources.file@, "tls_pin"@), filled(value_in(sources.file@, "tls_cert"@))),
                    ),
                ),
            );
            s.tls.pin_path@ == or_else(pin, "dev-certs/payphone-cert.der"@)
        }),
{
    lemma_chosen_of_two(*sources, "sni", "PAYPHONE_SERVER_NAME", "sni", "server_name");
    lemma_chosen(*sources, "tls-ca", "PAYPHONE_TLS_CA", "tls_ca");
    lemma_pin(*sources);
}

proof fn lemma_pin(sources: Sources)
    ensures
        sources.picked(crate::client::settings::pin_places()) == rather(
            value_in(sources.options@, "tls-pin"@),
            rather(
                value_in(sources.env@, "PAYPHONE_TLS_PIN"@),
                rather(
                    value_in(sources.env@, "PAYPHONE_TLS_CERT"@),
                    rather(value_in(sources.file@, "tls_pin"@), filled(value_in(sources.file@, "tls_cert"@))),
                ),
            ),
        ),
{
    let list = crate::client::settings::pin_places();
    let l1 = list.skip(1);
    let l2 = l1.skip(1);
    let l3 = l2.skip(1);
    let l4 = l3.skip(1);
    reveal_with_fuel(Sources::picked, 7);
    assert(l1 =~= seq![
        Place::Env("PAYPHONE_TLS_PIN"),
        Place::Env("PAYPHONE_TLS_CERT"),
        Place::File("tls_pin"),
        Place::File("tls_cert"),
    ]);
    assert(l2 =~= seq![Place::Env("PAYPHONE_TLS_CERT"), Place::File("tls_pin"), Place::File("tls_cert")]);
    assert(l3 =~= seq![Place::File("tls_pin"), Place::File("tls_cert")]);
    assert(l4 =~= seq![Place::File("tls_cert")]);
    assert(l4.skip(1) =~= Seq::<Place>::empty());
}

/// The name in a REALITY hello: set for that, or the server's, without a
/// port.
pub proof fn law_reality_name(
    args: &Arguments,
    sources: &Sources,
    key_file: Option<&Vec<u8>>,
    s: ClientSettings,
    reality: RealityClientConfig,
    asked: &str,
    host: Result<String, RealityConfigError>,
)
    requires
        call_ensures(resolve_client, (args, sources, key_file), Ok::<ClientSettings, SettingsError>(s)),
        s.tls.reality == Some(reality),
        call_ensures(dest_host, (asked,), host),
    ensures
        ({
            let set = rather(
                value_in(sources.options@, "reality-sni"@),
                rather(
                    value_in(sources.env@, "PAYPHONE_REALITY_SNI"@),
                    rather(
                        value_in(sources.file@, "reality_sni"@),
                        rather(
                            value_in(sources.options@, "sni"@),
                            filled(value_in(sources.env@, "PAYPHONE_SERVER_NAME"@)),
                        ),
                    ),
                ),
            );
            &&& set == Some(asked@) && host is Ok ==> reality.server_name@ == host->Ok_0@
            &&& set == Some(asked@) && host is Err ==> reality.server_name@ == asked@
        }),
{
    lemma_reality_sni(*sources);
}

proof fn lemma_reality_sni(sources: Sources)
    ensures
        sources.picked(crate::client::settings::reality_sni_places()) == rather(
            value_in(sources.options@, "reality-sni"@),
            rather(
                value_in(sources.env@, "PAYPHONE_REALITY_SNI"@),
                rather(
                    value_in(sources.file@, "reality_sni"@),
                    rather(
                        value_in(sources.options@, "sni"@),
                        filled(value_in(sources.env@, "PAYPHONE_SERVER_NAME"@)),
                    ),
                ),
            ),
        ),
{
    let list = crate::client::settings::reality_sni_places();
    let l1 = list.skip(1);
    let l2 = l1.skip(1);
    let l3 = l2.skip(1);
    let l4 = l3.skip(1);
    reveal_with_fuel(Sources::picked, 7);
    assert(l1 =~= seq![
        Place::Env("PAYPHONE_REALITY_SNI"),
        Place::File("reality_sni"),
        Place::Option("sni"),
        Place::Env("PAYPHONE_SERVER_NAME"),
    ]);
    assert(l2 =~= seq![Place::File("reality_sni"), Place::Option("sni"), Place::Env("PAYPHONE_SERVER_NAME")]);
    assert(l3 =~= seq![Place::Option("sni"), Place::Env("PAYPHONE_SERVER_NAME")]);
    assert(l4 =~= seq![Place::Env("PAYPHONE_SERVER_NAME")]);
    assert(l4.skip(1) =~= Seq::<Place>::empty());
}

} // verus!
