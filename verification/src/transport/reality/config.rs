//! Who may pass: the settings of both sides, and the check of a ClientHello.

use vstd::prelude::*;

use super::auth::{auth_key_of, open_session_id, opened, reality_auth_key, x25519_shared};
use super::hello::{client_hello_in, handshake_from_record, handshake_in, ClientHelloParts, ClientHelloView};
use crate::clock::unix_seconds;
use crate::crypto::x25519_secret;
use crate::text::{
    after, before, chars_of, find_first, find_last, first_place, is_listed, last_place, listed, lower_all, string_of,
    text, trim, trimmed,
};
use crate::wire::{array_at, be_value, read_u32, same_bytes};

verus! {

/// How far the clocks of client and server may be apart, in milliseconds.
pub const DEFAULT_MAX_TIME_DIFF_MS: u64 = 120_000;

/// The version in the first three bytes of the session id.
pub const CLIENT_VERSION: [u8; 3] = [0, 2, 0];

#[derive(Clone, Debug)]
pub struct RealityClientConfig {
    pub public_key: [u8; 32],
    pub short_id: [u8; 8],
    pub server_name: String,
}

#[derive(Clone, Debug)]
pub struct RealityServerConfig {
    pub dest: String,
    pub private_key: [u8; 32],
    pub short_ids: Vec<[u8; 8]>,
    pub server_names: Vec<String>,
    /// Names whose TLS the server speaks itself.
    pub local_names: Vec<String>,
    /// Zero for no limit.
    pub max_time_diff_ms: u64,
    /// Sizes of the records after the handshake, by [`ClientHelloView::alpn_class`].
    pub post_handshake: [Vec<usize>; 3],
}

#[derive(Clone, Copy, Debug, PartialEq, Eq, Structural)]
pub enum RealityConfigError {
    /// PAYPHONE_REALITY_DEST is empty
    NoDest,
    /// PAYPHONE_REALITY_SHORT_ID is empty
    NoShortId,
    /// REALITY dest is empty
    BlankDest,
    /// invalid REALITY dest: missing ]
    MissingBracket,
}

impl RealityConfigError {
    pub open spec fn message_spec(self) -> Seq<char> {
        match self {
            RealityConfigError::NoDest => "PAYPHONE_REALITY_DEST is empty"@,
            RealityConfigError::NoShortId => "PAYPHONE_REALITY_SHORT_ID is empty"@,
            RealityConfigError::BlankDest => "REALITY dest is empty"@,
            RealityConfigError::MissingBracket => "invalid REALITY dest: missing ]"@,
        }
    }

    pub fn message(&self) -> (message: String)
        ensures
            message@ == self.message_spec(),
    {
        match self {
            RealityConfigError::NoDest => text("PAYPHONE_REALITY_DEST is empty"),
            RealityConfigError::NoShortId => text("PAYPHONE_REALITY_SHORT_ID is empty"),
            RealityConfigError::BlankDest => text("REALITY dest is empty"),
            RealityConfigError::MissingBracket => text("invalid REALITY dest: missing ]"),
        }
    }
}

/// The host in `host:port`, `[v6]:port` or `host`.
pub open spec fn host_of(dest: Seq<char>) -> Result<Seq<char>, RealityConfigError> {
    let dest = trim(dest);
    if dest.len() == 0 {
        Err(RealityConfigError::BlankDest)
    } else if dest[0] == '[' {
        let rest = dest.skip(1);
        match first_place(rest, ']') {
            Some(end) => Ok(rest.take(end)),
            None => Err(RealityConfigError::MissingBracket),
        }
    } else {
        match last_place(dest, ':') {
            Some(colon) => Ok(
                if colon > 0 {
                    dest.take(colon)
                } else {
                    dest
                },
            ),
            None => Ok(dest),
        }
    }
}

pub fn dest_host(dest: &str) -> (host: Result<String, RealityConfigError>)
    ensures
        match host {
            Ok(host) => host_of(dest@) == Ok::<Seq<char>, RealityConfigError>(host@),
            Err(error) => host_of(dest@) == Err::<Seq<char>, RealityConfigError>(error),
        },
{
    let chars = chars_of(dest);
    let dest = trimmed(&chars);
    if dest.len() == 0 {
        return Err(RealityConfigError::BlankDest);
    }
    if dest[0] == '[' {
        let rest = after(dest, 1);
        return match find_first(rest, ']') {
            Some(end) => Ok(string_of(before(rest, end))),
            None => Err(RealityConfigError::MissingBracket),
        };
    }
    match find_last(dest, ':') {
        Some(colon) => {
            if colon > 0 {
                Ok(string_of(before(dest, colon)))
            } else {
                Ok(string_of(dest))
            }
        },
        None => Ok(string_of(dest)),
    }
}

impl RealityServerConfig {
    /// A server that stands in for `dest`, under its name.
    pub fn new(
        dest: String,
        private_key: [u8; 32],
        short_ids: Vec<[u8; 8]>,
    ) -> (config: Result<Self, RealityConfigError>)
        ensures
            match config {
                Ok(config) => {
                    &&& dest@.len() > 0
                    &&& short_ids@.len() > 0
                    &&& host_of(dest@) is Ok
                    &&& config.dest@ == dest@
                    &&& config.private_key == private_key
                    &&& config.short_ids@ == short_ids@
                    &&& config.server_names@.len() == 1
                    &&& config.server_names@[0]@ == host_of(dest@)->Ok_0
                    &&& config.local_names@.len() == 0
                    &&& config.max_time_diff_ms == DEFAULT_MAX_TIME_DIFF_MS
                    &&& forall|i: int| 0 <= i < 3 ==> (#[trigger] config.post_handshake@[i])@.len() == 0
                },
                Err(error) => {
                    ||| dest@.len() == 0 && error == RealityConfigError::NoDest
                    ||| dest@.len() > 0 && short_ids@.len() == 0 && error == RealityConfigError::NoShortId
                    ||| dest@.len() > 0 && short_ids@.len() > 0 && host_of(dest@) == Err::<
                        Seq<char>,
                        RealityConfigError,
                    >(error)
                },
            },
    {
        if chars_of(&dest).len() == 0 {
            return Err(RealityConfigError::NoDest);
        }
        if short_ids.len() == 0 {
            return Err(RealityConfigError::NoShortId);
        }
        match dest_host(&dest) {
            Err(error) => Err(error),
            Ok(host) => {
                let mut server_names: Vec<String> = Vec::new();
                server_names.push(host);
                Ok(
                    RealityServerConfig {
                        dest,
                        private_key,
                        short_ids,
                        server_names,
                        local_names: Vec::new(),
                        max_time_diff_ms: DEFAULT_MAX_TIME_DIFF_MS,
                        post_handshake: [Vec::new(), Vec::new(), Vec::new()],
                    },
                )
            },
        }
    }

    /// The name to ask the site for when its records are measured.
    pub fn probe_name(&self) -> (name: String)
        ensures
            name@ == (if self.server_names@.len() > 0 {
                self.server_names@[0]@
            } else {
                match host_of(self.dest@) {
                    Ok(host) => host,
                    Err(_) => Seq::empty(),
                }
            }),
    {
        if self.server_names.len() > 0 {
            return text(&self.server_names[0]);
        }
        match dest_host(&self.dest) {
            Ok(host) => host,
            Err(_) => String::new(),
        }
    }

    pub fn post_handshake_lens(&self) -> (lens: Vec<usize>)
        ensures
            lens@ == self.post_handshake@[2]@,
    {
        self.post_handshake_lens_for(2)
    }

    pub fn post_handshake_lens_for(&self, alpn_class: u8) -> (lens: Vec<usize>)
        ensures
            lens@ == self.post_handshake@[if alpn_class < 2 {
                alpn_class as int
            } else {
                2
            }]@,
    {
        let i: usize = if alpn_class < 2 {
            alpn_class as usize
        } else {
            2
        };
        vstd::slice::slice_to_vec(&self.post_handshake[i])
    }
}

// ---------------------------------------------------------------------------
// The check
// ---------------------------------------------------------------------------

#[derive(Debug, Clone, Copy, PartialEq, Eq, Structural)]
pub enum AuthError {
    NotClientHello,
    Rejected,
}

#[derive(Clone, Debug)]
pub struct AuthenticatedHello {
    pub hello: ClientHelloView,
    pub auth_key: [u8; 32],
}

/// Whether a short id is one of the server's.
pub open spec fn short_id_known(ids: Seq<[u8; 8]>, id: Seq<u8>) -> bool {
    exists|i: int| 0 <= i < ids.len() && (#[trigger] ids[i])@ == id
}

/// Whether the time in a session id is near enough to `now`.
pub open spec fn time_fits(config: RealityServerConfig, stamp: nat, now: nat) -> bool {
    let apart = if now < stamp {
        (stamp - now) as nat
    } else {
        (now - stamp) as nat
    };
    config.max_time_diff_ms == 0 || apart <= config.max_time_diff_ms / 1000
}

/// Whether the decrypted session id lets its sender pass.
pub open spec fn plain_passes(config: RealityServerConfig, plain: Seq<u8>, now: nat) -> bool {
    &&& short_id_known(config.short_ids@, plain.subrange(8, 16))
    &&& time_fits(config, be_value(plain.subrange(4, 8)), now)
}

/// Whether the hello names a server that this one goes by.
pub open spec fn name_passes(config: RealityServerConfig, sni: Option<Seq<char>>) -> bool {
    config.server_names@.len() == 0 || listed(
        config.server_names@,
        match sni {
            Some(name) => name,
            None => Seq::empty(),
        },
    )
}

/// What comes of a record: the hello and the key that both sides have, where
/// its session id was made for this server.
pub open spec fn authenticated(
    record: Seq<u8>,
    config: RealityServerConfig,
    now: nat,
) -> Result<(ClientHelloParts, Seq<u8>), AuthError> {
    match handshake_in(record) {
        None => Err(AuthError::NotClientHello),
        Some(handshake) => match client_hello_in(handshake) {
            None => Err(AuthError::NotClientHello),
            Some(hello) => if hello.session_id.len() != 32 || !name_passes(config, hello.sni) {
                Err(AuthError::Rejected)
            } else {
                match hello.x25519_public {
                    None => Err(AuthError::Rejected),
                    Some(peer) => match opened(
                        config.private_key@,
                        peer,
                        hello.random,
                        hello.session_id,
                        handshake,
                    ) {
                        None => Err(AuthError::Rejected),
                        Some(plain) => if plain_passes(config, plain, now) {
                            Ok((hello, auth_key_of(x25519_secret(config.private_key@, peer), hello.random)))
                        } else {
                            Err(AuthError::Rejected)
                        },
                    },
                }
            },
        },
    }
}

fn knows_short_id(ids: &Vec<[u8; 8]>, id: &[u8; 8]) -> (yes: bool)
    ensures
        yes == short_id_known(ids@, id@),
{
    let mut i: usize = 0;
    while i < ids.len()
        invariant
            i <= ids@.len(),
            forall|j: int| 0 <= j < i ==> (#[trigger] ids@[j])@ != id@,
        decreases ids@.len() - i,
    {
        if same_bytes(&ids[i], id) {
            return true;
        }
        i = i + 1;
    }
    false
}

/// The check at the time `now`, in seconds since 1970.
pub fn authenticate_at(
    record: &[u8],
    config: &RealityServerConfig,
    now: u64,
) -> (out: Result<AuthenticatedHello, AuthError>)
    ensures
        match out {
            Ok(out) => authenticated(record@, *config, now as nat) == Ok::<(ClientHelloParts, Seq<u8>), AuthError>(
                (out.hello@, out.auth_key@),
            ),
            Err(error) => authenticated(record@, *config, now as nat) == Err::<
                (ClientHelloParts, Seq<u8>),
                AuthError,
            >(error),
        },
{
    let hello = match ClientHelloView::parse(record) {
        Some(hello) => hello,
        None => return Err(AuthError::NotClientHello),
    };
    if hello.session_id.len() != 32 {
        return Err(AuthError::Rejected);
    }
    if config.server_names.len() > 0 {
        let name = match &hello.sni {
            Some(name) => chars_of(name),
            None => Vec::new(),
        };
        if !is_listed(&config.server_names, &name) {
            return Err(AuthError::Rejected);
        }
    }
    let peer = match hello.x25519_public {
        Some(peer) => peer,
        None => return Err(AuthError::Rejected),
    };
    let handshake = match handshake_from_record(record) {
        Some(handshake) => handshake,
        None => return Err(AuthError::NotClientHello),
    };
    let plain = match open_session_id(&config.private_key, &peer, &hello.random, &hello.session_id, handshake) {
        Some(plain) => plain,
        None => return Err(AuthError::Rejected),
    };
    let short_id: [u8; 8] = array_at(&plain, 8);
    if !knows_short_id(&config.short_ids, &short_id) {
        return Err(AuthError::Rejected);
    }
    if config.max_time_diff_ms != 0 {
        let stamp: u64 = read_u32(&plain, 4) as u64;
        let apart: u64 = if now < stamp {
            stamp - now
        } else {
            now - stamp
        };
        if apart > config.max_time_diff_ms / 1000 {
            return Err(AuthError::Rejected);
        }
    }
    let auth_key = reality_auth_key(&x25519_shared(&config.private_key, &peer), &hello.random);
    Ok(AuthenticatedHello { hello, auth_key })
}

pub fn authenticate(record: &[u8], config: &RealityServerConfig) -> (out: Result<AuthenticatedHello, AuthError>)
    ensures
        exists|now: nat|
            match out {
                Ok(out) => #[trigger] authenticated(record@, *config, now) == Ok::<
                    (ClientHelloParts, Seq<u8>),
                    AuthError,
                >((out.hello@, out.auth_key@)),
                Err(error) => authenticated(record@, *config, now) == Err::<
                    (ClientHelloParts, Seq<u8>),
                    AuthError,
                >(error),
            },
{
    let now: u64 = unix_seconds();
    authenticate_at(record, config, now)
}

// ---------------------------------------------------------------------------
// Laws
// ---------------------------------------------------------------------------

/// With a limit, the clock of the client may go ahead of the server's or
/// behind it by as many whole seconds as the limit has, either way alike;
/// without one any time does.
pub proof fn law_clocks_may_differ(config: RealityServerConfig, stamp: nat, now: nat)
    ensures
        config.max_time_diff_ms > 0 ==> (time_fits(config, stamp, now) <==> {
            &&& stamp <= now + config.max_time_diff_ms as int / 1000
            &&& now <= stamp + config.max_time_diff_ms as int / 1000
        }),
        config.max_time_diff_ms == 0 ==> time_fits(config, stamp, now),
        time_fits(config, stamp, now) == time_fits(config, now, stamp),
        config.max_time_diff_ms == 120_000 ==> (time_fits(config, stamp, now) <==> stamp <= now + 120 && now <= stamp
            + 120),
        DEFAULT_MAX_TIME_DIFF_MS == 120_000,
{
}

/// A hello whose session id opens passes if and only if its short id is one
/// of the server's, its name is one that the server goes by, capital
/// letters aside (any, where it goes by none), and its clock is near enough. Bytes 4 to 7 of the session
/// id are the time, bytes 8 to 15 the short id. Both sides then have the same
/// key, and the server sees the hello as it was sent.
pub proof fn law_who_passes(
    record: Seq<u8>,
    config: RealityServerConfig,
    now: nat,
    handshake: Seq<u8>,
    hello: ClientHelloParts,
    peer: Seq<u8>,
    plain: Seq<u8>,
)
    requires
        handshake_in(record) == Some(handshake),
        client_hello_in(handshake) == Some(hello),
        hello.session_id.len() == 32,
        hello.x25519_public == Some(peer),
        opened(config.private_key@, peer, hello.random, hello.session_id, handshake) == Some(plain),
        plain.len() == 16,
    ensures
        ({
            let stamp = plain[4] * 0x100_0000 + plain[5] * 0x1_0000 + plain[6] * 0x100 + plain[7];
            let allowed = config.max_time_diff_ms as int / 1000;
            let passes = {
                &&& exists|i: int| 0 <= i < config.short_ids@.len() && (#[trigger] config.short_ids@[i])@ == plain.skip(8)
                &&& config.server_names@.len() > 0 ==> exists|i: int|
                    0 <= i < config.server_names@.len() && lower_all(#[trigger] config.server_names@[i]@) == lower_all(
                        match hello.sni {
                            Some(name) => name,
                            None => Seq::empty(),
                        },
                    )
                &&& config.max_time_diff_ms > 0 ==> stamp <= now + allowed && now <= stamp + allowed
            };
            &&& authenticated(record, config, now) is Ok <==> passes
            &&& passes ==> authenticated(record, config, now) == Ok::<(ClientHelloParts, Seq<u8>), AuthError>(
                (hello, auth_key_of(x25519_secret(config.private_key@, peer), hello.random)),
            )
            &&& !passes ==> authenticated(record, config, now) == Err::<(ClientHelloParts, Seq<u8>), AuthError>(
                AuthError::Rejected,
            )
        }),
{
    let four = plain.subrange(4, 8);
    reveal_with_fuel(be_value, 5);
    assert(four.drop_last() =~= plain.subrange(4, 7));
    assert(plain.subrange(4, 7).drop_last() =~= plain.subrange(4, 6));
    assert(plain.subrange(4, 6).drop_last() =~= plain.subrange(4, 5));
    assert(plain.subrange(4, 5).drop_last() =~= Seq::<u8>::empty());
    assert(be_value(four) == plain[4] * 0x100_0000 + plain[5] * 0x1_0000 + plain[6] * 0x100 + plain[7]);
    assert(plain.subrange(8, 16) =~= plain.skip(8));
}

/// Bytes that hold no ClientHello are told apart from a ClientHello that does
/// not pass: one without a session id of 32 bytes, without an X25519 key, or
/// with a session id that does not open.
pub proof fn law_who_is_turned_away(record: Seq<u8>, config: RealityServerConfig, now: nat)
    ensures
        handshake_in(record) is None ==> authenticated(record, config, now) == Err::<
            (ClientHelloParts, Seq<u8>),
            AuthError,
        >(AuthError::NotClientHello),
        handshake_in(record) matches Some(handshake) ==> (match client_hello_in(handshake) {
            None => authenticated(record, config, now) == Err::<(ClientHelloParts, Seq<u8>), AuthError>(
                AuthError::NotClientHello,
            ),
            Some(hello) => {
                let shut = match hello.x25519_public {
                    Some(peer) => opened(
                        config.private_key@,
                        peer,
                        hello.random,
                        hello.session_id,
                        handshake,
                    ) is None,
                    None => true,
                };
                hello.session_id.len() != 32 || shut ==> authenticated(record, config, now) == Err::<
                    (ClientHelloParts, Seq<u8>),
                    AuthError,
                >(AuthError::Rejected)
            },
        }),
{
}

/// The check lets a hello whose session id opens pass if and only if its
/// short id is known, its name is, and the two clocks are at most as many
/// whole seconds apart as allowed, whichever is ahead.
pub proof fn law_check(
    record: &[u8],
    config: &RealityServerConfig,
    now: u64,
    out: Result<AuthenticatedHello, AuthError>,
    handshake: Seq<u8>,
    hello: ClientHelloParts,
    peer: Seq<u8>,
    plain: Seq<u8>,
)
    requires
        call_ensures(authenticate_at, (record, config, now), out),
        handshake_in(record@) == Some(handshake),
        client_hello_in(handshake) == Some(hello),
        hello.session_id.len() == 32,
        hello.x25519_public == Some(peer),
        opened(config.private_key@, peer, hello.random, hello.session_id, handshake) == Some(plain),
        plain.len() == 16,
    ensures
        ({
            let stamp = plain[4] * 0x100_0000 + plain[5] * 0x1_0000 + plain[6] * 0x100 + plain[7];
            let allowed = config.max_time_diff_ms as int / 1000;
            let passes = {
                &&& exists|i: int| 0 <= i < config.short_ids@.len() && (#[trigger] config.short_ids@[i])@ == plain.skip(8)
                &&& config.server_names@.len() > 0 ==> exists|i: int|
                    0 <= i < config.server_names@.len() && lower_all(#[trigger] config.server_names@[i]@) == lower_all(
                        match hello.sni {
                            Some(name) => name,
                            None => Seq::empty(),
                        },
                    )
                &&& config.max_time_diff_ms > 0 ==> stamp <= now + allowed && now <= stamp + allowed
            };
            &&& passes <==> out is Ok
            &&& out matches Ok(found) ==> found.hello@ == hello && found.auth_key@ == auth_key_of(
                x25519_secret(config.private_key@, peer),
                hello.random,
            )
            &&& out matches Err(error) ==> error == AuthError::Rejected
        }),
{
    law_who_passes(record@, *config, now as nat, handshake, hello, peer, plain);
}

/// Who does not show a session id that opens is turned away.
pub proof fn law_strangers_are_turned_away(
    record: &[u8],
    config: &RealityServerConfig,
    now: u64,
    out: Result<AuthenticatedHello, AuthError>,
    handshake: Seq<u8>,
    hello: ClientHelloParts,
)
    requires
        call_ensures(authenticate_at, (record, config, now), out),
        handshake_in(record@) == Some(handshake),
        client_hello_in(handshake) == Some(hello),
        hello.session_id.len() != 32 || hello.x25519_public is None || opened(
            config.private_key@,
            hello.x25519_public->0,
            hello.random,
            hello.session_id,
            handshake,
        ) is None,
    ensures
        out matches Err(error) && error == AuthError::Rejected,
{
}

/// A server stands in for the host of its site, under that name, with two
/// minutes for the clocks.
pub proof fn law_new_server(
    dest: String,
    private_key: [u8; 32],
    short_ids: Vec<[u8; 8]>,
    config: Result<RealityServerConfig, RealityConfigError>,
)
    requires
        call_ensures(RealityServerConfig::new, (dest, private_key, short_ids), config),
    ensures
        config is Ok <==> dest@.len() > 0 && short_ids@.len() > 0 && host_of(dest@) is Ok,
        config matches Ok(config) ==> {
            &&& config.max_time_diff_ms == 120_000
            &&& config.private_key == private_key
            &&& config.short_ids@ == short_ids@
            &&& config.dest@ == dest@
            &&& config.server_names@.len() == 1
            &&& host_of(dest@) == Ok::<Seq<char>, RealityConfigError>(config.server_names@[0]@)
            &&& config.local_names@.len() == 0
        },
{
}

} // verus!
