//! TLS 1.3 hello messages as REALITY reads and patches them. The session id
//! of a ClientHello stands at offset 39 of its handshake message.

use vstd::prelude::*;

use crate::text::{chars_of, string_of, utf8_str};
use crate::wire::{array_at, be_value, read_u16, read_u24, same_bytes};

verus! {

pub const EXT_SERVER_NAME: u16 = 0;

pub const EXT_ALPN: u16 = 16;

pub const EXT_SUPPORTED_VERSIONS: u16 = 43;

pub const EXT_KEY_SHARE: u16 = 51;

pub const GROUP_X25519: u16 = 0x001d;

pub const GROUP_X25519_MLKEM768: u16 = 0x11ec;

// ---------------------------------------------------------------------------
// Lists with lengths
// ---------------------------------------------------------------------------

/// The two-byte number at `at`.
pub open spec fn u16_at(s: Seq<u8>, at: int) -> nat {
    be_value(s.subrange(at, at + 2))
}

/// Where the run of bytes at `at` ends, whose length stands before it in `k`
/// bytes; `None` where `s` ends first.
pub open spec fn run_end(s: Seq<u8>, at: int, k: nat) -> Option<int> {
    if at + k > s.len() {
        None
    } else {
        let end = at + k + be_value(s.subrange(at, at + k));
        if end > s.len() {
            None
        } else {
            Some(end)
        }
    }
}

/// As [`run_end`], for lengths of one to three bytes.
pub(super) fn find_run_end(s: &[u8], at: usize, k: usize) -> (end: Option<usize>)
    requires
        at <= s@.len(),
        1 <= k <= 3,
    ensures
        match end {
            Some(end) => run_end(s@, at as int, k as nat) == Some(end as int) && at + k <= end <= s@.len(),
            None => run_end(s@, at as int, k as nat) is None,
        },
{
    if s.len() - at < k {
        return None;
    }
    let n: usize = if k == 1 {
        proof {
            let one = s@.subrange(at as int, at + 1);
            assert(one.drop_last() =~= Seq::empty());
            assert(be_value(one.drop_last()) == 0);
            assert(be_value(one) == s@[at as int]);
        }
        s[at] as usize
    } else if k == 2 {
        read_u16(s, at) as usize
    } else {
        read_u24(s, at)
    };
    if s.len() - at - k < n {
        return None;
    }
    Some(at + k + n)
}

/// Entries of a two-byte type, a two-byte length and so many bytes. Up to
/// three bytes may be left over at the end.
pub open spec fn entries(s: Seq<u8>) -> Option<Seq<(nat, Seq<u8>)>>
    decreases s.len(),
{
    if s.len() < 4 {
        Some(Seq::empty())
    } else {
        match run_end(s, 2, 2) {
            None => None,
            Some(end) => match entries(s.skip(end)) {
                None => None,
                Some(rest) => Some(seq![(u16_at(s, 0), s.subrange(4, end))] + rest),
            },
        }
    }
}

/// The types of some entries.
pub open spec fn types_of(list: Seq<(nat, Seq<u8>)>) -> Seq<nat> {
    Seq::new(list.len(), |i: int| list[i].0)
}

/// What the last entry of a type holds.
pub open spec fn last_of(list: Seq<(nat, Seq<u8>)>, typ: nat) -> Option<Seq<u8>>
    decreases list.len(),
{
    if list.len() == 0 {
        None
    } else if list.last().0 == typ {
        Some(list.last().1)
    } else {
        last_of(list.drop_last(), typ)
    }
}

/// Reads the first entry: its type, and where it ends.
fn first_entry(s: &[u8]) -> (entry: Option<(u16, usize)>)
    requires
        s@.len() >= 4,
    ensures
        match entry {
            Some((typ, end)) => typ == u16_at(s@, 0) && run_end(s@, 2, 2) == Some(end as int) && 4 <= end <= s@.len(),
            None => run_end(s@, 2, 2) is None,
        },
{
    match find_run_end(s, 2, 2) {
        None => None,
        Some(end) => Some((read_u16(s, 0), end)),
    }
}

proof fn lemma_entries_step(s: Seq<u8>, done: Seq<(nat, Seq<u8>)>, all: Option<Seq<(nat, Seq<u8>)>>)
    requires
        s.len() >= 4,
        match entries(s) {
            Some(rest) => all == Some(done + rest),
            None => all is None,
        },
    ensures
        match run_end(s, 2, 2) {
            None => all is None,
            Some(end) => {
                let next = done.push((u16_at(s, 0), s.subrange(4, end)));
                match entries(s.skip(end)) {
                    Some(rest) => all == Some(next + rest),
                    None => all is None,
                }
            },
        },
{
    if let Some(end) = run_end(s, 2, 2) {
        let head = (u16_at(s, 0), s.subrange(4, end));
        if let Some(rest) = entries(s.skip(end)) {
            assert(done + (seq![head] + rest) =~= done.push(head) + rest);
        }
    }
}

// ---------------------------------------------------------------------------
// ClientHello
// ---------------------------------------------------------------------------

/// What a ClientHello says.
pub ghost struct ClientHelloParts {
    pub random: Seq<u8>,
    pub session_id: Seq<u8>,
    pub sni: Option<Seq<char>>,
    pub x25519_public: Option<Seq<u8>>,
    pub alpn: Seq<Seq<u8>>,
}

#[derive(Clone, Debug)]
pub struct ClientHelloView {
    pub random: [u8; 32],
    pub session_id: Vec<u8>,
    pub sni: Option<String>,
    pub x25519_public: Option<[u8; 32]>,
    pub alpn: Vec<Vec<u8>>,
}

pub open spec fn byte_views(v: Seq<Vec<u8>>) -> Seq<Seq<u8>> {
    Seq::new(v.len(), |i: int| v[i]@)
}

pub open spec fn text_view(s: Option<String>) -> Option<Seq<char>> {
    match s {
        Some(s) => Some(s@),
        None => None,
    }
}

pub open spec fn key_view(key: Option<[u8; 32]>) -> Option<Seq<u8>> {
    match key {
        Some(key) => Some(key@),
        None => None,
    }
}

impl View for ClientHelloView {
    type V = ClientHelloParts;

    open spec fn view(&self) -> ClientHelloParts {
        ClientHelloParts {
            random: self.random@,
            session_id: self.session_id@,
            sni: text_view(self.sni),
            x25519_public: key_view(self.x25519_public),
            alpn: byte_views(self.alpn@),
        }
    }
}

/// The handshake message in a TLS record.
pub open spec fn handshake_in(record: Seq<u8>) -> Option<Seq<u8>> {
    if record.len() < 5 || record[0] != 0x16 {
        None
    } else {
        match run_end(record, 3, 2) {
            Some(end) => Some(record.subrange(5, end)),
            None => None,
        }
    }
}

pub fn handshake_from_record(record: &[u8]) -> (handshake: Option<&[u8]>)
    ensures
        match handshake {
            Some(handshake) => handshake_in(record@) == Some(handshake@),
            None => handshake_in(record@) is None,
        },
{
    if record.len() < 5 || record[0] != 0x16 {
        return None;
    }
    match find_run_end(record, 3, 2) {
        Some(end) => Some(vstd::slice::slice_subrange(record, 5, end)),
        None => None,
    }
}

/// The body of a handshake message.
pub open spec fn body_of(handshake: Seq<u8>) -> Option<Seq<u8>> {
    match run_end(handshake, 1, 3) {
        Some(end) => Some(handshake.subrange(4, end)),
        None => None,
    }
}

/// The session id and the extensions in the body of a ClientHello. Cipher
/// suites and compression methods stand between them.
pub open spec fn client_runs(body: Seq<u8>) -> Option<(Seq<u8>, Seq<u8>)> {
    match run_end(body, 34, 1) {
        None => None,
        Some(suites) => match run_end(body, suites, 2) {
            None => None,
            Some(compression) => match run_end(body, compression, 1) {
                None => None,
                Some(at) => match run_end(body, at, 2) {
                    None => None,
                    Some(end) => Some((body.subrange(35, suites), body.subrange(at + 2, end))),
                },
            },
        },
    }
}

/// The body of a ClientHello message.
pub open spec fn client_body(handshake: Seq<u8>) -> Option<Seq<u8>> {
    if handshake.len() < 42 || handshake[0] != 1 {
        None
    } else {
        body_of(handshake)
    }
}

/// What a ClientHello handshake message says.
pub open spec fn client_hello_in(handshake: Seq<u8>) -> Option<ClientHelloParts> {
    match client_body(handshake) {
        None => None,
        Some(body) => match client_runs(body) {
            None => None,
            Some((session_id, extensions)) => match entries(extensions) {
                None => None,
                Some(list) => Some(
                    ClientHelloParts {
                        random: body.subrange(2, 34),
                        session_id,
                        sni: sni_of(last_of(list, EXT_SERVER_NAME as nat)),
                        x25519_public: share_of(last_of(list, EXT_KEY_SHARE as nat)),
                        alpn: alpn_of(last_of(list, EXT_ALPN as nat)),
                    },
                ),
            },
        },
    }
}

pub open spec fn sni_of(data: Option<Seq<u8>>) -> Option<Seq<char>> {
    match data {
        Some(data) => sni_in(data),
        None => None,
    }
}

pub open spec fn share_of(data: Option<Seq<u8>>) -> Option<Seq<u8>> {
    match data {
        Some(data) => client_share_in(data),
        None => None,
    }
}

pub open spec fn alpn_of(data: Option<Seq<u8>>) -> Seq<Seq<u8>> {
    match data {
        Some(data) => alpn_in(data),
        None => Seq::empty(),
    }
}

/// The bytes of the host name, if that is the first name in the list.
pub open spec fn sni_bytes(data: Seq<u8>) -> Option<Seq<u8>> {
    if data.len() < 5 {
        None
    } else {
        match run_end(data, 0, 2) {
            None => None,
            Some(end) => {
                let list = data.subrange(2, end);
                if list.len() == 0 || list[0] != 0 {
                    None
                } else {
                    match run_end(list, 1, 2) {
                        None => None,
                        Some(end) => Some(list.subrange(3, end)),
                    }
                }
            },
        }
    }
}

pub open spec fn sni_in(data: Seq<u8>) -> Option<Seq<char>> {
    match sni_bytes(data) {
        Some(name) => if vstd::utf8::valid_utf8(name) {
            Some(vstd::utf8::decode_utf8(name))
        } else {
            None
        },
        None => None,
    }
}

/// The X25519 part of a key share, if it has one: all of an X25519 key, the
/// end of a hybrid one.
pub open spec fn x25519_in(group: nat, key: Seq<u8>) -> Option<Seq<u8>> {
    if group == GROUP_X25519 && key.len() == 32 {
        Some(key)
    } else if group == GROUP_X25519_MLKEM768 && key.len() >= 32 {
        Some(key.skip(key.len() - 32))
    } else {
        None
    }
}

/// The first X25519 key in a list of shares.
pub open spec fn first_share(s: Seq<u8>) -> Option<Seq<u8>>
    decreases s.len(),
{
    if s.len() < 4 {
        None
    } else {
        match run_end(s, 2, 2) {
            None => None,
            Some(end) => match x25519_in(u16_at(s, 0), s.subrange(4, end)) {
                Some(key) => Some(key),
                None => first_share(s.skip(end)),
            },
        }
    }
}

pub open spec fn client_share_in(data: Seq<u8>) -> Option<Seq<u8>> {
    match run_end(data, 0, 2) {
        Some(end) => first_share(data.subrange(2, end)),
        None => None,
    }
}

/// The names in a list, up to the first that is cut off.
pub open spec fn protocols(s: Seq<u8>) -> Seq<Seq<u8>>
    decreases s.len(),
{
    if s.len() == 0 {
        Seq::empty()
    } else {
        match run_end(s, 0, 1) {
            None => Seq::empty(),
            Some(end) => seq![s.subrange(1, end)] + protocols(s.skip(end)),
        }
    }
}

pub open spec fn alpn_in(data: Seq<u8>) -> Seq<Seq<u8>> {
    match run_end(data, 0, 2) {
        Some(end) => protocols(data.subrange(2, end)),
        None => Seq::empty(),
    }
}

fn parse_alpn(data: &[u8]) -> (out: Vec<Vec<u8>>)
    ensures
        byte_views(out@) == alpn_in(data@),
{
    let mut out: Vec<Vec<u8>> = Vec::new();
    assert(byte_views(out@) =~= Seq::empty());
    let end: usize = match find_run_end(data, 0, 2) {
        Some(end) => end,
        None => return out,
    };
    let mut list = vstd::slice::slice_subrange(data, 2, end);
    assert(byte_views(out@) + protocols(list@) =~= alpn_in(data@));
    while list.len() > 0
        invariant
            byte_views(out@) + protocols(list@) == alpn_in(data@),
        decreases list.len(),
    {
        match find_run_end(list, 0, 1) {
            None => {
                assert(byte_views(out@) + protocols(list@) =~= byte_views(out@));
                return out;
            },
            Some(n) => {
                let name = vstd::slice::slice_to_vec(vstd::slice::slice_subrange(list, 1, n));
                let ghost before = byte_views(out@);
                out.push(name);
                let rest = vstd::slice::slice_subrange(list, n, list.len());
                proof {
                    assert(byte_views(out@) =~= before.push(name@));
                    assert(rest@ =~= list@.skip(n as int));
                    assert(byte_views(out@) + protocols(rest@) =~= before + protocols(list@));
                }
                list = rest;
            },
        }
    }
    assert(byte_views(out@) + protocols(list@) =~= byte_views(out@));
    out
}

fn parse_sni(data: &[u8]) -> (name: Option<String>)
    ensures
        text_view(name) == sni_in(data@),
{
    if data.len() < 5 {
        return None;
    }
    let list = match find_run_end(data, 0, 2) {
        Some(end) => vstd::slice::slice_subrange(data, 2, end),
        None => return None,
    };
    if list.len() == 0 || list[0] != 0 {
        return None;
    }
    let name = match find_run_end(list, 1, 2) {
        Some(end) => vstd::slice::slice_subrange(list, 3, end),
        None => return None,
    };
    match utf8_str(name) {
        Some(text) => Some(string_of(&chars_of(text))),
        None => None,
    }
}

/// As [`x25519_in`].
fn x25519_part(group: u16, key: &[u8]) -> (out: Option<[u8; 32]>)
    ensures
        key_view(out) == x25519_in(group as nat, key@),
{
    if group == GROUP_X25519 && key.len() == 32 {
        let out: [u8; 32] = array_at(key, 0);
        assert(out@ =~= key@);
        return Some(out);
    }
    if group == GROUP_X25519_MLKEM768 && key.len() >= 32 {
        let out: [u8; 32] = array_at(key, key.len() - 32);
        assert(out@ =~= key@.skip(key@.len() - 32));
        return Some(out);
    }
    None
}

fn parse_x25519_share(data: &[u8]) -> (key: Option<[u8; 32]>)
    ensures
        key_view(key) == client_share_in(data@),
{
    let mut shares = match find_run_end(data, 0, 2) {
        Some(end) => vstd::slice::slice_subrange(data, 2, end),
        None => return None,
    };
    while shares.len() >= 4
        invariant
            first_share(shares@) == client_share_in(data@),
        decreases shares.len(),
    {
        match first_entry(shares) {
            None => return None,
            Some((group, end)) => {
                let key = x25519_part(group, vstd::slice::slice_subrange(shares, 4, end));
                if key.is_some() {
                    return key;
                }
                let rest = vstd::slice::slice_subrange(shares, end, shares.len());
                assert(rest@ =~= shares@.skip(end as int));
                shares = rest;
            },
        }
    }
    None
}

type Extensions = (Option<String>, Option<[u8; 32]>, Vec<Vec<u8>>);

fn parse_extensions(extensions: &[u8]) -> (out: Option<Extensions>)
    ensures
        match out {
            Some((sni, share, alpn)) => {
                &&& entries(extensions@) is Some
                &&& text_view(sni) == sni_of(last_of(entries(extensions@)->0, EXT_SERVER_NAME as nat))
                &&& key_view(share) == share_of(last_of(entries(extensions@)->0, EXT_KEY_SHARE as nat))
                &&& byte_views(alpn@) == alpn_of(last_of(entries(extensions@)->0, EXT_ALPN as nat))
            },
            None => entries(extensions@) is None,
        },
{
    let mut sni: Option<String> = None;
    let mut share: Option<[u8; 32]> = None;
    let mut alpn: Vec<Vec<u8>> = Vec::new();
    let mut rest = extensions;
    let ghost mut done: Seq<(nat, Seq<u8>)> = Seq::empty();
    proof {
        assert(byte_views(alpn@) =~= Seq::empty());
        if let Some(list) = entries(rest@) {
            assert(done + list =~= list);
        }
    }
    while rest.len() >= 4
        invariant
            match entries(rest@) {
                Some(list) => entries(extensions@) == Some(done + list),
                None => entries(extensions@) is None,
            },
            text_view(sni) == sni_of(last_of(done, EXT_SERVER_NAME as nat)),
            key_view(share) == share_of(last_of(done, EXT_KEY_SHARE as nat)),
            byte_views(alpn@) == alpn_of(last_of(done, EXT_ALPN as nat)),
        decreases rest.len(),
    {
        proof {
            lemma_entries_step(rest@, done, entries(extensions@));
        }
        match first_entry(rest) {
            None => return None,
            Some((typ, end)) => {
                let data = vstd::slice::slice_subrange(rest, 4, end);
                let next = vstd::slice::slice_subrange(rest, end, rest.len());
                proof {
                    assert(next@ =~= rest@.skip(end as int));
                    let more = done.push((typ as nat, data@));
                    assert(more.drop_last() =~= done);
                    done = more;
                }
                if typ == EXT_SERVER_NAME {
                    sni = parse_sni(data);
                } else if typ == EXT_KEY_SHARE {
                    share = parse_x25519_share(data);
                } else if typ == EXT_ALPN {
                    alpn = parse_alpn(data);
                }
                rest = next;
            },
        }
    }
    assert(done + Seq::<(nat, Seq<u8>)>::empty() =~= done);
    Some((sni, share, alpn))
}

/// As [`client_body`].
fn find_client_body(handshake: &[u8]) -> (body: Option<&[u8]>)
    ensures
        match body {
            Some(body) => client_body(handshake@) == Some(body@),
            None => client_body(handshake@) is None,
        },
{
    if handshake.len() < 42 || handshake[0] != 0x01 {
        return None;
    }
    match find_run_end(handshake, 1, 3) {
        Some(end) => Some(vstd::slice::slice_subrange(handshake, 4, end)),
        None => None,
    }
}

/// As [`client_runs`]; the random bytes are there too.
fn find_client_runs(body: &[u8]) -> (runs: Option<(&[u8], &[u8])>)
    ensures
        match runs {
            Some((session_id, extensions)) => client_runs(body@) == Some((session_id@, extensions@)) && body@.len() >= 34,
            None => client_runs(body@) is None,
        },
{
    if body.len() < 34 {
        return None;
    }
    let suites: usize = match find_run_end(body, 34, 1) {
        Some(at) => at,
        None => return None,
    };
    let compression: usize = match find_run_end(body, suites, 2) {
        Some(at) => at,
        None => return None,
    };
    let at: usize = match find_run_end(body, compression, 1) {
        Some(at) => at,
        None => return None,
    };
    match find_run_end(body, at, 2) {
        Some(end) => Some(
            (vstd::slice::slice_subrange(body, 35, suites), vstd::slice::slice_subrange(body, at + 2, end)),
        ),
        None => None,
    }
}

/// Reads a ClientHello handshake message.
pub fn parse_handshake(handshake: &[u8]) -> (view: Option<ClientHelloView>)
    ensures
        match view {
            Some(view) => client_hello_in(handshake@) == Some(view@),
            None => client_hello_in(handshake@) is None,
        },
{
    let body = match find_client_body(handshake) {
        Some(body) => body,
        None => return None,
    };
    let (session_id, extensions) = match find_client_runs(body) {
        Some(runs) => runs,
        None => return None,
    };
    let random: [u8; 32] = array_at(body, 2);
    match parse_extensions(extensions) {
        None => None,
        Some((sni, x25519_public, alpn)) => Some(
            ClientHelloView {
                random,
                session_id: vstd::slice::slice_to_vec(session_id),
                sni,
                x25519_public,
                alpn,
            },
        ),
    }
}

/// `h2`.
pub const ALPN_H2: [u8; 2] = [104, 50];

/// `http/1.1`.
pub const ALPN_HTTP11: [u8; 8] = [104, 116, 116, 112, 47, 49, 46, 49];

/// `acme-tls/1`.
pub const ALPN_ACME: [u8; 10] = [97, 99, 109, 101, 45, 116, 108, 115, 47, 49];

impl ClientHelloView {
    /// Reads the ClientHello in a TLS record.
    pub fn parse(record: &[u8]) -> (view: Option<Self>)
        ensures
            match view {
                Some(view) => handshake_in(record@) is Some && client_hello_in(handshake_in(record@)->0) == Some(view@),
                None => handshake_in(record@) is None || client_hello_in(handshake_in(record@)->0) is None,
            },
    {
        match handshake_from_record(record) {
            Some(handshake) => parse_handshake(handshake),
            None => None,
        }
    }

    /// Which sort of client this is: 0 without ALPN, 2 for one that wants h2
    /// first, else 1.
    pub fn alpn_class(&self) -> (class: u8)
        ensures
            class == (if self@.alpn.len() == 0 {
                0u8
            } else if self@.alpn[0] == ALPN_H2@ {
                2
            } else {
                1
            }),
    {
        if self.alpn.len() == 0 {
            return 0;
        }
        let h2 = ALPN_H2;
        if same_bytes(&self.alpn[0], &h2) {
            2
        } else {
            1
        }
    }

    /// Whether this is a check of an ACME server.
    pub fn has_acme_alpn(&self) -> (yes: bool)
        ensures
            yes == self@.alpn.contains(ALPN_ACME@),
    {
        let acme = ALPN_ACME;
        let mut i: usize = 0;
        while i < self.alpn.len()
            invariant
                i <= self.alpn@.len(),
                acme@ == ALPN_ACME@,
                forall|j: int| 0 <= j < i ==> self@.alpn[j] != ALPN_ACME@,
            decreases self.alpn@.len() - i,
        {
            if same_bytes(&self.alpn[i], &acme) {
                assert(self@.alpn[i as int] == ALPN_ACME@);
                return true;
            }
            i = i + 1;
        }
        false
    }
}

/// The extension types of a ClientHello handshake message, in order.
pub open spec fn extension_types_in(handshake: Seq<u8>) -> Option<Seq<nat>> {
    match client_body(handshake) {
        None => None,
        Some(body) => match client_runs(body) {
            None => None,
            Some((_, extensions)) => match entries(extensions) {
                None => None,
                Some(list) => Some(types_of(list)),
            },
        },
    }
}

pub open spec fn type_views(v: Seq<u16>) -> Seq<nat> {
    Seq::new(v.len(), |i: int| v[i] as nat)
}

pub fn extension_types(handshake: &[u8]) -> (types: Option<Vec<u16>>)
    ensures
        match types {
            Some(types) => extension_types_in(handshake@) == Some(type_views(types@)),
            None => extension_types_in(handshake@) is None,
        },
{
    let body = match find_client_body(handshake) {
        Some(body) => body,
        None => return None,
    };
    match find_client_runs(body) {
        Some((_, extensions)) => match server_extensions(extensions) {
            Some((types, _)) => Some(types),
            None => None,
        },
        None => None,
    }
}

// ---------------------------------------------------------------------------
// ServerHello
// ---------------------------------------------------------------------------

/// The random bytes by which a HelloRetryRequest is known.
pub const HRR_RANDOM: [u8; 32] = [
    0xCF, 0x21, 0xAD, 0x74, 0xE5, 0x9A, 0x61, 0x11, 0xBE, 0x1D, 0x8C, 0x02, 0x1E, 0x65, 0xB8, 0x91, 0xC2, 0xA2, 0x11,
    0x16, 0x7A, 0xBB, 0x8C, 0x5E, 0x07, 0x9E, 0x09, 0xE2, 0xC8, 0xA8, 0x33, 0x9C,
];

/// What a ServerHello says.
pub ghost struct ServerHelloParts {
    pub random: Seq<u8>,
    pub session_id: Seq<u8>,
    pub cipher: nat,
    pub extensions: Seq<nat>,
    pub x25519_public: Option<Seq<u8>>,
}

/// A TLS 1.3 ServerHello. Its cipher and the order of its extensions are its
/// fingerprint.
#[derive(Clone, Debug)]
pub struct ServerHelloView {
    pub random: [u8; 32],
    pub session_id: Vec<u8>,
    pub cipher: u16,
    pub extensions: Vec<u16>,
    pub x25519_public: Option<[u8; 32]>,
}

impl View for ServerHelloView {
    type V = ServerHelloParts;

    open spec fn view(&self) -> ServerHelloParts {
        ServerHelloParts {
            random: self.random@,
            session_id: self.session_id@,
            cipher: self.cipher as nat,
            extensions: type_views(self.extensions@),
            x25519_public: key_view(self.x25519_public),
        }
    }
}

/// The body of a ServerHello message.
pub open spec fn server_body(msg: Seq<u8>) -> Option<Seq<u8>> {
    if msg.len() < 6 || msg[0] != 2 {
        None
    } else {
        body_of(msg)
    }
}

/// Where, in the body of a ServerHello, the cipher stands and where the
/// extensions end. They begin five bytes after the cipher: it takes two, the
/// compression method one, their length two.
pub open spec fn server_marks(body: Seq<u8>) -> Option<(int, int)> {
    match run_end(body, 34, 1) {
        None => None,
        Some(cipher) => match run_end(body, cipher + 3, 2) {
            None => None,
            Some(end) => Some((cipher, end)),
        },
    }
}

pub open spec fn server_share_of(data: Option<Seq<u8>>) -> Option<Seq<u8>> {
    match data {
        Some(data) => server_share_in(data),
        None => None,
    }
}

/// The X25519 key in a server's key share.
pub open spec fn server_share_in(data: Seq<u8>) -> Option<Seq<u8>> {
    if data.len() < 4 {
        None
    } else {
        match run_end(data, 2, 2) {
            None => None,
            Some(end) => x25519_in(u16_at(data, 0), data.subrange(4, end)),
        }
    }
}

/// What a ServerHello handshake message says; `None` for a HelloRetryRequest.
pub open spec fn server_hello_in(msg: Seq<u8>) -> Option<ServerHelloParts> {
    match server_body(msg) {
        None => None,
        Some(body) => match server_marks(body) {
            None => None,
            Some((cipher, end)) => match entries(body.subrange(cipher + 5, end)) {
                None => None,
                Some(list) => if body.subrange(2, 34) == HRR_RANDOM@ {
                    None
                } else {
                    Some(
                        ServerHelloParts {
                            random: body.subrange(2, 34),
                            session_id: body.subrange(35, cipher),
                            cipher: u16_at(body, cipher),
                            extensions: types_of(list),
                            x25519_public: server_share_of(last_of(list, EXT_KEY_SHARE as nat)),
                        },
                    )
                },
            },
        },
    }
}

fn parse_server_share(data: &[u8]) -> (key: Option<[u8; 32]>)
    ensures
        key_view(key) == server_share_in(data@),
{
    if data.len() < 4 {
        return None;
    }
    match first_entry(data) {
        Some((group, end)) => x25519_part(group, vstd::slice::slice_subrange(data, 4, end)),
        None => None,
    }
}

/// The types of some extensions, and the server's key share among them.
fn server_extensions(extensions: &[u8]) -> (out: Option<(Vec<u16>, Option<[u8; 32]>)>)
    ensures
        match out {
            Some((types, share)) => {
                &&& entries(extensions@) is Some
                &&& type_views(types@) == types_of(entries(extensions@)->0)
                &&& key_view(share) == server_share_of(last_of(entries(extensions@)->0, EXT_KEY_SHARE as nat))
            },
            None => entries(extensions@) is None,
        },
{
    let mut types: Vec<u16> = Vec::new();
    let mut share: Option<[u8; 32]> = None;
    let mut rest = extensions;
    let ghost mut done: Seq<(nat, Seq<u8>)> = Seq::empty();
    proof {
        assert(type_views(types@) =~= types_of(done));
        if let Some(list) = entries(rest@) {
            assert(done + list =~= list);
        }
    }
    while rest.len() >= 4
        invariant
            match entries(rest@) {
                Some(list) => entries(extensions@) == Some(done + list),
                None => entries(extensions@) is None,
            },
            type_views(types@) == types_of(done),
            key_view(share) == server_share_of(last_of(done, EXT_KEY_SHARE as nat)),
        decreases rest.len(),
    {
        proof {
            lemma_entries_step(rest@, done, entries(extensions@));
        }
        match first_entry(rest) {
            None => return None,
            Some((typ, end)) => {
                let data = vstd::slice::slice_subrange(rest, 4, end);
                let next = vstd::slice::slice_subrange(rest, end, rest.len());
                let ghost before = types@;
                types.push(typ);
                proof {
                    assert(next@ =~= rest@.skip(end as int));
                    let more = done.push((typ as nat, data@));
                    assert(more.drop_last() =~= done);
                    assert(type_views(types@) =~= type_views(before).push(typ as nat));
                    assert(types_of(more) =~= types_of(done).push(typ as nat));
                    done = more;
                }
                if typ == EXT_KEY_SHARE {
                    share = parse_server_share(data);
                }
                rest = next;
            },
        }
    }
    assert(done + Seq::<(nat, Seq<u8>)>::empty() =~= done);
    Some((types, share))
}

/// As [`server_body`] and [`server_marks`]: where in the message the body
/// ends, and the marks in the body.
fn find_server_marks(msg: &[u8]) -> (marks: Option<(usize, usize, usize)>)
    ensures
        match marks {
            Some((body_end, cipher, end)) => {
                &&& server_body(msg@) == Some(msg@.subrange(4, body_end as int))
                &&& 4 <= body_end <= msg@.len()
                &&& server_marks(msg@.subrange(4, body_end as int)) == Some((cipher as int, end as int))
                &&& 35 <= cipher
                &&& cipher + 5 <= end <= body_end - 4
            },
            None => server_body(msg@) is None || server_marks(server_body(msg@)->0) is None,
        },
{
    if msg.len() < 6 || msg[0] != 2 {
        return None;
    }
    let body_end: usize = match find_run_end(msg, 1, 3) {
        Some(end) => end,
        None => return None,
    };
    let body = vstd::slice::slice_subrange(msg, 4, body_end);
    if body.len() < 34 {
        return None;
    }
    let cipher: usize = match find_run_end(body, 34, 1) {
        Some(at) => at,
        None => return None,
    };
    if body.len() - cipher < 3 {
        return None;
    }
    match find_run_end(body, cipher + 3, 2) {
        Some(end) => Some((body_end, cipher, end)),
        None => None,
    }
}

impl ServerHelloView {
    pub fn parse(msg: &[u8]) -> (view: Option<Self>)
        ensures
            match view {
                Some(view) => server_hello_in(msg@) == Some(view@),
                None => server_hello_in(msg@) is None,
            },
    {
        let (body_end, cipher, end) = match find_server_marks(msg) {
            Some(marks) => marks,
            None => return None,
        };
        let body = vstd::slice::slice_subrange(msg, 4, body_end);
        let random: [u8; 32] = array_at(body, 2);
        let retry = HRR_RANDOM;
        if same_bytes(&random, &retry) {
            return None;
        }
        let session_id = vstd::slice::slice_to_vec(vstd::slice::slice_subrange(body, 35, cipher));
        match server_extensions(vstd::slice::slice_subrange(body, cipher + 5, end)) {
            Some((extensions, x25519_public)) => Some(
                ServerHelloView { random, session_id, cipher: read_u16(body, cipher), extensions, x25519_public },
            ),
            None => None,
        }
    }

    /// The fingerprint: TLS version, cipher and extension types.
    pub fn ja3s(&self) -> (fingerprint: (u16, u16, Vec<u16>))
        ensures
            fingerprint.0 == 0x0303,
            fingerprint.1 == self@.cipher,
            type_views(fingerprint.2@) == self@.extensions,
    {
        (0x0303, self.cipher, vstd::slice::slice_to_vec(&self.extensions))
    }
}

// ---------------------------------------------------------------------------
// Patching a ServerHello
// ---------------------------------------------------------------------------

/// Where the X25519 key begins in some extensions: in the first key share
/// that is not too short for a key.
pub open spec fn share_place(s: Seq<u8>) -> Option<int>
    decreases s.len(),
{
    if s.len() < 4 {
        None
    } else {
        match run_end(s, 2, 2) {
            None => None,
            Some(end) => if u16_at(s, 0) == EXT_KEY_SHARE && end >= 8 {
                let data = s.subrange(4, end);
                match run_end(data, 2, 2) {
                    None => None,
                    Some(key_end) => if x25519_in(u16_at(data, 0), data.subrange(4, key_end)) is Some {
                        Some(4 + key_end - 32)
                    } else {
                        None
                    },
                }
            } else {
                match share_place(s.skip(end)) {
                    Some(place) => Some(end + place),
                    None => None,
                }
            },
        }
    }
}

/// Where the X25519 key begins in a ServerHello message.
pub open spec fn server_key_place(msg: Seq<u8>) -> Option<int> {
    match server_body(msg) {
        None => None,
        Some(body) => match server_marks(body) {
            None => None,
            Some((cipher, end)) => match share_place(body.subrange(cipher + 5, end)) {
                Some(place) => Some(4 + cipher + 5 + place),
                None => None,
            },
        },
    }
}

/// `s` with `new` written over it from `at` on.
pub open spec fn overwritten(s: Seq<u8>, at: int, new: Seq<u8>) -> Seq<u8> {
    Seq::new(
        s.len(),
        |i: int|
            if at <= i < at + new.len() {
                new[i - at]
            } else {
                s[i]
            },
    )
}

/// As [`share_place`].
fn find_share_place(extensions: &[u8]) -> (place: Option<usize>)
    ensures
        match place {
            Some(place) => share_place(extensions@) == Some(place as int) && place + 32 <= extensions@.len(),
            None => share_place(extensions@) is None,
        },
{
    let mut at: usize = 0;
    assert(extensions@.skip(0) =~= extensions@);
    while extensions.len() - at >= 4
        invariant
            at <= extensions.len(),
            share_place(extensions@) == (match share_place(extensions@.skip(at as int)) {
                Some(place) => Some(at + place),
                None => None,
            }),
        decreases extensions.len() - at,
    {
        let rest = vstd::slice::slice_subrange(extensions, at, extensions.len());
        assert(rest@ =~= extensions@.skip(at as int));
        match first_entry(rest) {
            None => return None,
            Some((typ, end)) => {
                if typ == EXT_KEY_SHARE && end >= 8 {
                    let data = vstd::slice::slice_subrange(rest, 4, end);
                    return match first_entry(data) {
                        None => None,
                        Some((group, key_end)) => {
                            if x25519_part(group, vstd::slice::slice_subrange(data, 4, key_end)).is_some() {
                                Some(at + 4 + (key_end - 32))
                            } else {
                                None
                            }
                        },
                    };
                }
                assert(extensions@.skip(at as int).skip(end as int) =~= extensions@.skip(at + end));
                at = at + end;
            },
        }
    }
    None
}

/// Overwrites the X25519 key of a ServerHello in place. Cipher and extension
/// order stay as they are.
pub fn patch_server_hello_x25519(msg: &mut [u8], public: &[u8; 32]) -> (done: bool)
    ensures
        match server_key_place(old(msg)@) {
            Some(place) => done && final(msg)@ == overwritten(old(msg)@, place, public@),
            None => !done && final(msg)@ == old(msg)@,
        },
{
    let (body_end, cipher, end) = match find_server_marks(msg) {
        Some(marks) => marks,
        None => return false,
    };
    let place: usize = {
        let body = vstd::slice::slice_subrange(msg, 4, body_end);
        match find_share_place(vstd::slice::slice_subrange(body, cipher + 5, end)) {
            Some(place) => 4 + cipher + 5 + place,
            None => return false,
        }
    };
    let ghost before = msg@;
    let len: usize = msg.len();
    let mut i: usize = 0;
    while i < 32
        invariant
            i <= 32,
            place + 32 <= len == msg@.len() == before.len(),
            msg@ == overwritten(before, place as int, public@.take(i as int)),
        decreases 32 - i,
    {
        msg[place + i] = public[i];
        i = i + 1;
        assert(msg@ =~= overwritten(before, place as int, public@.take(i as int)));
    }
    assert(public@.take(32) =~= public@);
    true
}

proof fn lemma_share_place_bounds(s: Seq<u8>)
    ensures
        share_place(s) matches Some(place) ==> 8 <= place && place + 32 <= s.len(),
    decreases s.len(),
{
    if s.len() >= 4 {
        if let Some(end) = run_end(s, 2, 2) {
            if u16_at(s, 0) == EXT_KEY_SHARE && end >= 8 {
            } else {
                lemma_share_place_bounds(s.skip(end));
            }
        }
    }
}

/// Overwriting the key changes one entry of the extensions, which holds the
/// new key then.
proof fn lemma_patch_entries(s: Seq<u8>, public: Seq<u8>) -> (k: int)
    requires
        public.len() == 32,
        entries(s) is Some,
        share_place(s) is Some,
    ensures
        ({
            let list = entries(s)->0;
            let after = entries(overwritten(s, share_place(s)->0, public));
            &&& 0 <= k < list.len()
            &&& list[k].0 == EXT_KEY_SHARE
            &&& after matches Some(new)
            &&& new.len() == list.len()
            &&& new == list.update(k, (EXT_KEY_SHARE as nat, new[k].1))
            &&& server_share_in(new[k].1) == Some(public)
        }),
    decreases s.len(),
{
    let place = share_place(s)->0;
    let t = overwritten(s, place, public);
    lemma_share_place_bounds(s);
    let end = run_end(s, 2, 2)->0;
    assert(t.subrange(0, 2) =~= s.subrange(0, 2));
    assert(t.subrange(2, 4) =~= s.subrange(2, 4));
    assert(run_end(t, 2, 2) == Some(end));
    let list = entries(s)->0;
    let rest = entries(s.skip(end))->0;
    if u16_at(s, 0) == EXT_KEY_SHARE && end >= 8 {
        let data = s.subrange(4, end);
        let key_end = run_end(data, 2, 2)->0;
        let fresh = t.subrange(4, end);
        assert(t.skip(end) =~= s.skip(end));
        assert(fresh.subrange(0, 2) =~= data.subrange(0, 2));
        assert(fresh.subrange(2, 4) =~= data.subrange(2, 4));
        let key = fresh.subrange(4, key_end);
        assert(key.skip(key.len() - 32) =~= public);
        assert(key.len() == 32 ==> key =~= public);
        assert(server_share_in(fresh) == Some(public));
        let new = seq![(EXT_KEY_SHARE as nat, fresh)] + rest;
        assert(entries(t) == Some(new));
        assert(new =~= list.update(0, (EXT_KEY_SHARE as nat, new[0].1)));
        0
    } else {
        lemma_share_place_bounds(s.skip(end));
        assert(t.skip(end) =~= overwritten(s.skip(end), place - end, public));
        assert(t.subrange(4, end) =~= s.subrange(4, end));
        let k = lemma_patch_entries(s.skip(end), public);
        let tail = entries(t.skip(end))->0;
        let new = seq![(u16_at(s, 0), s.subrange(4, end))] + tail;
        assert(entries(t) == Some(new));
        assert(new =~= list.update(k + 1, (EXT_KEY_SHARE as nat, new[k + 1].1)));
        k + 1
    }
}

pub(super) proof fn lemma_only_entry(list: Seq<(nat, Seq<u8>)>, k: int)
    requires
        0 <= k < list.len(),
        forall|j: int| 0 <= j < list.len() && j != k ==> (#[trigger] list[j]).0 != list[k].0,
    ensures
        last_of(list, list[k].0) == Some(list[k].1),
    decreases list.len(),
{
    if k < list.len() - 1 {
        assert(list[list.len() - 1].0 != list[k].0);
        let before = list.drop_last();
        assert(before[k] == list[k]);
        assert forall|j: int| 0 <= j < before.len() && j != k implies (#[trigger] before[j]).0 != before[k].0 by {
            assert(before[j] == list[j]);
        }
        lemma_only_entry(before, k);
    }
}

/// A patched ServerHello has the fingerprint of the one that was patched: the
/// same cipher and the same extensions in the same order, and also the same
/// random bytes and session id. Where there is one key share, its key is the
/// new one.
pub proof fn law_patch_keeps_fingerprint(msg: Seq<u8>, public: Seq<u8>)
    requires
        public.len() == 32,
        server_hello_in(msg) is Some,
        server_key_place(msg) is Some,
    ensures
        ({
            let before = server_hello_in(msg)->0;
            let after = server_hello_in(overwritten(msg, server_key_place(msg)->0, public));
            &&& after matches Some(after)
            &&& after.random == before.random
            &&& after.session_id == before.session_id
            &&& after.cipher == before.cipher
            &&& after.extensions == before.extensions
            &&& (forall|i: int, j: int|
                0 <= i < before.extensions.len() && 0 <= j < before.extensions.len() && #[trigger] before.extensions[i]
                    == EXT_KEY_SHARE && #[trigger] before.extensions[j] == EXT_KEY_SHARE ==> i == j)
                ==> after.x25519_public == Some(public)
        }),
{
    let at = server_key_place(msg)->0;
    let new = overwritten(msg, at, public);
    let body = server_body(msg)->0;
    let (cipher, end) = server_marks(body)->0;
    let extensions = body.subrange(cipher + 5, end);
    let place = share_place(extensions)->0;
    lemma_share_place_bounds(extensions);
    let body_end = run_end(msg, 1, 3)->0;
    assert(new.subrange(1, 4) =~= msg.subrange(1, 4));
    let new_body = new.subrange(4, body_end);
    assert(server_body(new) == Some(new_body));
    assert(new_body =~= overwritten(body, cipher + 5 + place, public));
    assert(new_body.subrange(34, 35) =~= body.subrange(34, 35));
    assert(new_body.subrange(cipher + 3, cipher + 5) =~= body.subrange(cipher + 3, cipher + 5));
    assert(server_marks(new_body) == Some((cipher, end)));
    assert(new_body.subrange(cipher + 5, end) =~= overwritten(extensions, place, public));
    assert(new_body.subrange(2, 34) =~= body.subrange(2, 34));
    assert(new_body.subrange(35, cipher) =~= body.subrange(35, cipher));
    assert(new_body.subrange(cipher, cipher + 2) =~= body.subrange(cipher, cipher + 2));
    let k = lemma_patch_entries(extensions, public);
    let list = entries(extensions)->0;
    let new_list = entries(overwritten(extensions, place, public))->0;
    assert(types_of(new_list) =~= types_of(list));
    let before = server_hello_in(msg)->0;
    if forall|i: int, j: int|
        0 <= i < before.extensions.len() && 0 <= j < before.extensions.len() && #[trigger] before.extensions[i]
            == EXT_KEY_SHARE && #[trigger] before.extensions[j] == EXT_KEY_SHARE ==> i == j {
        assert(before.extensions[k] == EXT_KEY_SHARE);
        assert forall|j: int| 0 <= j < new_list.len() && j != k implies (#[trigger] new_list[j]).0
            != new_list[k].0 by {
            assert(before.extensions[j] == list[j].0);
        }
        lemma_only_entry(new_list, k);
    }
}

} // verus!
