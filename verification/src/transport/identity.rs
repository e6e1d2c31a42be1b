//! Certificates: where they are, which names they are for, whom to trust.

use rcgen::{generate_simple_self_signed, CertifiedKey};
use rustls::pki_types::PrivateKeyDer;
use vstd::prelude::*;

use super::reality::config::RealityClientConfig;
use super::reality::hello::{byte_views, text_view};
use crate::net::{ip_in, ip_text, is_ip, IpValue};
use crate::text::{
    after, all_digits, before, chars_of, find_first, find_last, first_place, is_digit, is_listed, last_place, listed,
    lower_all, lowered, owned, same, same_ignoring_case, spells, split, split_at, string_of, string_views, text, trim,
    trimmed, views,
};
use crate::wire::{be_bytes, same_bytes};

verus! {

pub const CERT_PATH: &'static str = "dev-certs/payphone-cert.der";

pub const KEY_PATH: &'static str = "dev-certs/payphone-key.der";

/// The name of a generated certificate.
pub const SERVER_NAME: &'static str = "localhost";

// ---------------------------------------------------------------------------
// Names
// ---------------------------------------------------------------------------

/// The host in `host:port`, `[v6]:port` or `host`.
pub open spec fn hostname_in(addr: Seq<char>) -> Option<Seq<char>> {
    let addr = trim(addr);
    if addr.len() == 0 {
        None
    } else if addr[0] == '[' {
        let rest = addr.skip(1);
        match first_place(rest, ']') {
            None => None,
            Some(end) => {
                let host = trim(rest.take(end));
                if host.len() == 0 {
                    None
                } else {
                    Some(host)
                }
            },
        }
    } else {
        match last_place(addr, ':') {
            Some(colon) => if colon > 0 && all_digits(addr.skip(colon + 1)) {
                Some(addr.take(colon))
            } else {
                Some(addr)
            },
            None => Some(addr),
        }
    }
}

fn all_digit_chars(s: &[char]) -> (yes: bool)
    ensures
        yes == all_digits(s@),
{
    let mut i: usize = 0;
    while i < s.len()
        invariant
            i <= s.len(),
            forall|j: int| 0 <= j < i ==> is_digit(#[trigger] s@[j]),
        decreases s.len() - i,
    {
        if !('0' <= s[i] && s[i] <= '9') {
            assert(!is_digit(s@[i as int]));
            return false;
        }
        i = i + 1;
    }
    true
}

/// The host part of an address; `None` if it is empty.
pub fn hostname_from_addr(addr: &str) -> (host: Option<String>)
    ensures
        match host {
            Some(host) => hostname_in(addr@) == Some(host@),
            None => hostname_in(addr@) is None,
        },
{
    let chars = chars_of(addr);
    let addr = trimmed(&chars);
    if addr.len() == 0 {
        return None;
    }
    if addr[0] == '[' {
        let rest = after(addr, 1);
        return match find_first(rest, ']') {
            None => None,
            Some(end) => {
                let host = trimmed(before(rest, end));
                if host.len() == 0 {
                    None
                } else {
                    Some(string_of(host))
                }
            },
        };
    }
    match find_last(addr, ':') {
        Some(colon) => {
            if colon > 0 && all_digit_chars(after(addr, colon + 1)) {
                Some(string_of(before(addr, colon)))
            } else {
                Some(string_of(addr))
            }
        },
        None => Some(string_of(addr)),
    }
}

/// `s` without dots at its end.
pub open spec fn without_dots(s: Seq<char>) -> Seq<char>
    decreases s.len(),
{
    if s.len() > 0 && s.last() == '.' {
        without_dots(s.drop_last())
    } else {
        s
    }
}

/// A name that a public certificate can be had for: it has a dot and is no
/// address.
pub open spec fn public_name(name: Seq<char>) -> bool {
    let name = without_dots(trim(name));
    &&& name.len() > 0
    &&& lower_all(name) != lower_all(SERVER_NAME@)
    &&& !ip_text(name)
    &&& name.contains('.')
}

pub fn looks_like_public_dns_name(name: &str) -> (yes: bool)
    ensures
        yes == public_name(name@),
{
    let chars = chars_of(name);
    let trimmed_name = trimmed(&chars);
    let mut n: usize = trimmed_name.len();
    assert(trimmed_name@.take(n as int) =~= trimmed_name@);
    while n > 0 && trimmed_name[n - 1] == '.'
        invariant
            n <= trimmed_name.len(),
            without_dots(trimmed_name@) == without_dots(trimmed_name@.take(n as int)),
        decreases n,
    {
        assert(trimmed_name@.take(n as int).drop_last() =~= trimmed_name@.take(n - 1));
        n = n - 1;
    }
    let name = before(trimmed_name, n);
    assert(name@ == without_dots(trimmed_name@));
    if name.len() == 0 || same_ignoring_case(name, &chars_of(SERVER_NAME)) {
        return false;
    }
    if is_ip(name) {
        return false;
    }
    let dot = find_first(name, '.');
    proof {
        lemma_found(name@, '.');
    }
    dot.is_some()
}

proof fn lemma_found(s: Seq<char>, c: char)
    ensures
        first_place(s, c) is Some <==> s.contains(c),
    decreases s.len(),
{
    if s.len() > 0 {
        lemma_found(s.skip(1), c);
        if s.contains(c) && s[0] != c {
            let i = s.index_of(c);
            assert(s.skip(1)[i - 1] == c);
        }
        if s.skip(1).contains(c) {
            let i = s.skip(1).index_of(c);
            assert(s[i + 1] == c);
        }
        if s[0] == c {
            assert(s.contains(c));
        }
    }
}

/// The names in a list with commas, blank ones left out.
pub open spec fn names_in(pieces: Seq<Seq<char>>) -> Seq<Seq<char>>
    decreases pieces.len(),
{
    if pieces.len() == 0 {
        Seq::empty()
    } else if trim(pieces.last()).len() == 0 {
        names_in(pieces.drop_last())
    } else {
        names_in(pieces.drop_last()).push(trim(pieces.last()))
    }
}

/// The names of a certificate: those in the list, or the default one.
pub open spec fn sans_in(value: Option<Seq<char>>) -> Seq<Seq<char>> {
    let names = match value {
        Some(value) => names_in(split(value, seq![','])),
        None => Seq::empty(),
    };
    if names.len() == 0 {
        seq![SERVER_NAME@]
    } else {
        names
    }
}

pub fn parse_sans(value: Option<String>) -> (names: Vec<String>)
    ensures
        string_views(names@) == sans_in(text_view(value)),
{
    let mut names: Vec<String> = Vec::new();
    assert(string_views(names@) =~= Seq::empty());
    if let Some(value) = &value {
        let comma: [char; 1] = [','];
        assert(comma@ =~= seq![',']);
        let pieces = split_at(&chars_of(value), &comma);
        let ghost all = views(pieces@);
        let mut i: usize = 0;
        while i < pieces.len()
            invariant
                i <= pieces@.len(),
                all == views(pieces@),
                string_views(names@) == names_in(all.take(i as int)),
            decreases pieces@.len() - i,
        {
            proof {
                assert(all.take(i + 1).drop_last() =~= all.take(i as int));
                assert(all.take(i + 1).last() == pieces@[i as int]@);
            }
            let piece = trimmed(&pieces[i]);
            if piece.len() > 0 {
                let ghost before = string_views(names@);
                names.push(string_of(piece));
                assert(string_views(names@) =~= before.push(piece@));
            }
            i = i + 1;
        }
        assert(all.take(i as int) =~= all);
    }
    if names.len() == 0 {
        names.push(text(SERVER_NAME));
        assert(string_views(names@) =~= seq![SERVER_NAME@]);
    }
    names
}

// ---------------------------------------------------------------------------
// Paths
// ---------------------------------------------------------------------------

/// The components of a path: what stands between slashes, but for nothing at
/// all and for a dot after the first.
pub open spec fn components(pieces: Seq<Seq<char>>) -> Seq<Seq<char>>
    decreases pieces.len(),
{
    if pieces.len() == 0 {
        Seq::empty()
    } else if pieces.last().len() == 0 || (pieces.last() == seq!['.'] && pieces.len() > 1) {
        components(pieces.drop_last())
    } else {
        components(pieces.drop_last()).push(pieces.last())
    }
}

/// A path: whether it starts at the root, and its components.
pub open spec fn path_of(s: Seq<char>) -> (bool, Seq<Seq<char>>) {
    (s.len() > 0 && s[0] == '/', components(split(s, seq!['/'])))
}

fn read_path(s: &str) -> (path: (bool, Vec<Vec<char>>))
    ensures
        (path.0, views(path.1@)) == path_of(s@),
{
    let chars = chars_of(s);
    let rooted = chars.len() > 0 && chars[0] == '/';
    let slash: [char; 1] = ['/'];
    assert(slash@ =~= seq!['/']);
    let dot: [char; 1] = ['.'];
    assert(dot@ =~= seq!['.']);
    let pieces = split_at(&chars, &slash);
    let ghost all = views(pieces@);
    let mut out: Vec<Vec<char>> = Vec::new();
    assert(views(out@) =~= Seq::empty());
    let mut i: usize = 0;
    while i < pieces.len()
        invariant
            i <= pieces@.len(),
            all == views(pieces@),
            dot@ == seq!['.'],
            views(out@) == components(all.take(i as int)),
        decreases pieces@.len() - i,
    {
        proof {
            assert(all.take(i + 1).drop_last() =~= all.take(i as int));
            assert(all.take(i + 1).last() == pieces@[i as int]@);
        }
        if pieces[i].len() > 0 && !(i > 0 && same(&pieces[i], &dot)) {
            let ghost before = views(out@);
            out.push(owned(&pieces[i]));
            assert(views(out@) =~= before.push(pieces@[i as int]@));
        }
        i = i + 1;
    }
    assert(all.take(i as int) =~= all);
    (rooted, out)
}

/// Whether two texts are the same path.
pub fn same_path(a: &str, b: &str) -> (yes: bool)
    ensures
        yes == (path_of(a@) == path_of(b@)),
{
    let x = read_path(a);
    let y = read_path(b);
    if x.0 != y.0 || x.1.len() != y.1.len() {
        assert(x.1@.len() != y.1@.len() ==> views(x.1@).len() != views(y.1@).len());
        return false;
    }
    let mut i: usize = 0;
    while i < x.1.len()
        invariant
            i <= x.1@.len(),
            x.1@.len() == y.1@.len(),
            (x.0, views(x.1@)) == path_of(a@),
            (y.0, views(y.1@)) == path_of(b@),
            forall|j: int| 0 <= j < i ==> views(x.1@)[j] == views(y.1@)[j],
        decreases x.1@.len() - i,
    {
        if !same(&x.1[i], &y.1[i]) {
            assert(views(x.1@)[i as int] != views(y.1@)[i as int]);
            return false;
        }
        i = i + 1;
    }
    assert(views(x.1@) =~= views(y.1@));
    true
}

// ---------------------------------------------------------------------------
// The server's settings
// ---------------------------------------------------------------------------

/// Where the server's certificate is, and how it comes there.
#[derive(Clone, Debug)]
pub struct ServerTlsConfig {
    pub cert_path: String,
    pub key_path: String,
    pub sans: Vec<String>,
    /// A public DNS name to get a certificate for.
    pub acme_domain: Option<String>,
    pub acme_email: Option<String>,
    pub acme_dir: String,
    pub acme_staging: bool,
}

/// Where the ACME cache is: in the state directory of a container, where there
/// is one.
pub open spec fn acme_dir_for(container: bool) -> Seq<char> {
    if container {
        "/app/state/acme"@
    } else {
        "dev-certs/acme"@
    }
}

pub fn default_acme_dir(container: bool) -> (dir: String)
    ensures
        dir@ == acme_dir_for(container),
{
    if container {
        text("/app/state/acme")
    } else {
        text("dev-certs/acme")
    }
}

impl Default for ServerTlsConfig {
    fn default() -> (config: Self)
        ensures
            config.cert_path@ == CERT_PATH@,
            config.key_path@ == KEY_PATH@,
            string_views(config.sans@) == seq![SERVER_NAME@],
            config.acme_domain is None,
            config.acme_email is None,
            config.acme_dir@ == acme_dir_for(false),
            !config.acme_staging,
    {
        let mut sans: Vec<String> = Vec::new();
        sans.push(text(SERVER_NAME));
        assert(string_views(sans@) =~= seq![SERVER_NAME@]);
        ServerTlsConfig {
            cert_path: text(CERT_PATH),
            key_path: text(KEY_PATH),
            sans,
            acme_domain: None,
            acme_email: None,
            acme_dir: default_acme_dir(false),
            acme_staging: false,
        }
    }
}

/// Values of the environment.
#[derive(Clone, Debug)]
pub struct ServerTlsEnv {
    pub cert: Option<String>,
    pub key: Option<String>,
    pub san: Option<String>,
    pub domain: Option<String>,
    pub email: Option<String>,
    pub acme_dir: Option<String>,
    pub staging: Option<String>,
}

/// `1`, `true`, `on` or `yes`, in any case.
pub open spec fn says_yes(value: Seq<char>) -> bool {
    let value = lower_all(value);
    value == "1"@ || value == "true"@ || value == "on"@ || value == "yes"@
}

pub fn is_yes(value: &str) -> (yes: bool)
    ensures
        yes == says_yes(value@),
{
    let value = lowered(&chars_of(value));
    spells(&value, "1") || spells(&value, "true") || spells(&value, "on") || spells(&value, "yes")
}

pub open spec fn or_else(value: Option<String>, default: Seq<char>) -> Seq<char> {
    match value {
        Some(value) => value@,
        None => default,
    }
}

fn or_default(value: Option<String>, default: &str) -> (out: String)
    ensures
        out@ == or_else(value, default@),
{
    match value {
        Some(value) => value,
        None => text(default),
    }
}

/// A value that is set and not empty.
pub open spec fn filled(value: Option<String>) -> Option<Seq<char>> {
    match value {
        Some(value) => if value@.len() > 0 {
            Some(value@)
        } else {
            None
        },
        None => None,
    }
}

pub fn keep_filled(value: Option<String>) -> (out: Option<String>)
    ensures
        text_view(out) == filled(value),
{
    match value {
        Some(value) => {
            if chars_of(&value).len() > 0 {
                Some(value)
            } else {
                None
            }
        },
        None => None,
    }
}

/// The order of strings, by their characters.
pub open spec fn before_in_order(a: Seq<char>, b: Seq<char>) -> bool
    decreases a.len(),
{
    if b.len() == 0 {
        false
    } else if a.len() == 0 {
        true
    } else if a[0] != b[0] {
        a[0] < b[0]
    } else {
        before_in_order(a.skip(1), b.skip(1))
    }
}

pub open spec fn ascending(s: Seq<Seq<char>>) -> bool {
    forall|i: int, j: int| 0 <= i < j < s.len() ==> before_in_order(#[trigger] s[i], #[trigger] s[j])
}

pub proof fn lemma_order_total(a: Seq<char>, b: Seq<char>)
    ensures
        before_in_order(a, b) || before_in_order(b, a) || a == b,
        !(before_in_order(a, b) && before_in_order(b, a)),
        !before_in_order(a, a),
    decreases a.len(),
{
    if a.len() > 0 {
        lemma_order_total(a.skip(1), a.skip(1));
        if b.len() > 0 && a[0] == b[0] {
            lemma_order_total(a.skip(1), b.skip(1));
            if a.skip(1) == b.skip(1) {
                assert(a =~= seq![a[0]] + a.skip(1));
                assert(b =~= seq![b[0]] + b.skip(1));
            }
        }
    } else if b.len() == 0 {
        assert(a =~= b);
    }
}

proof fn lemma_order_transitive(a: Seq<char>, b: Seq<char>, c: Seq<char>)
    requires
        before_in_order(a, b),
        before_in_order(b, c),
    ensures
        before_in_order(a, c),
    decreases a.len(),
{
    if a.len() > 0 && b.len() > 0 && c.len() > 0 && a[0] == b[0] && b[0] == c[0] {
        lemma_order_transitive(a.skip(1), b.skip(1), c.skip(1));
    }
}

fn comes_before(a: &[char], b: &[char]) -> (yes: bool)
    ensures
        yes == before_in_order(a@, b@),
{
    let mut i: usize = 0;
    assert(a@.skip(0) =~= a@ && b@.skip(0) =~= b@);
    while i < a.len() && i < b.len()
        invariant
            i <= a.len(),
            i <= b.len(),
            before_in_order(a@, b@) == before_in_order(a@.skip(i as int), b@.skip(i as int)),
        decreases a.len() - i,
    {
        assert(a@.skip(i as int).skip(1) =~= a@.skip(i + 1));
        assert(b@.skip(i as int).skip(1) =~= b@.skip(i + 1));
        if a[i] != b[i] {
            return a[i] < b[i];
        }
        i = i + 1;
    }
    i < b.len()
}

/// Puts a name in its place, once.
fn insert_in_order(names: &mut Vec<Vec<char>>, name: Vec<char>)
    requires
        ascending(views(old(names)@)),
    ensures
        ascending(views(final(names)@)),
        forall|n: Seq<char>| #[trigger]
            views(final(names)@).contains(n) <==> views(old(names)@).contains(n) || n == name@,
{
    let ghost old_names = views(names@);
    let mut k: usize = 0;
    while k < names.len() && comes_before(&names[k], &name)
        invariant
            k <= names@.len(),
            names@ == old(names)@,
            old_names == views(names@),
            forall|j: int| 0 <= j < k ==> before_in_order(#[trigger] old_names[j], name@),
        decreases names@.len() - k,
    {
        k = k + 1;
    }
    if k < names.len() && same(&names[k], &name) {
        assert(old_names[k as int] == name@);
        assert(old_names.contains(name@));
        return;
    }
    names.insert(k, name);
    proof {
        let new = views(names@);
        assert(new =~= old_names.insert(k as int, name@));
        if k < old_names.len() {
            lemma_order_total(old_names[k as int], name@);
        }
        assert forall|j: int| k <= j < old_names.len() implies before_in_order(name@, #[trigger] old_names[j]) by {
            if j > k {
                lemma_order_transitive(name@, old_names[k as int], old_names[j]);
            }
        }
        assert forall|i: int, j: int| 0 <= i < j < new.len() implies before_in_order(
            #[trigger] new[i],
            #[trigger] new[j],
        ) by {
            let oi = if i < k {
                i
            } else {
                i - 1
            };
            let oj = if j < k {
                j
            } else {
                j - 1
            };
            if i == k {
                assert(new[j] == old_names[oj]);
            } else if j == k {
                assert(new[i] == old_names[oi]);
            } else {
                assert(new[i] == old_names[oi] && new[j] == old_names[oj]);
            }
        }
        assert forall|n: Seq<char>| #[trigger] new.contains(n) <==> old_names.contains(n) || n == name@ by {
            if old_names.contains(n) {
                let i = old_names.index_of(n);
                if i < k {
                    assert(new[i] == n);
                } else {
                    assert(new[i + 1] == n);
                }
            }
            if n == name@ {
                assert(new[k as int] == n);
            }
            if new.contains(n) && n != name@ {
                let i = new.index_of(n);
                if i < k {
                    assert(old_names[i] == n);
                } else {
                    assert(old_names[i - 1] == n);
                }
            }
        }
    }
}

impl ServerTlsConfig {
    /// The settings in the environment.
    pub fn from_env(env: ServerTlsEnv, container: bool) -> (config: Self)
        ensures
            config.cert_path@ == or_else(env.cert, CERT_PATH@),
            config.key_path@ == or_else(env.key, KEY_PATH@),
            string_views(config.sans@) == sans_in(text_view(env.san)),
            text_view(config.acme_domain) == filled(env.domain),
            text_view(config.acme_email) == filled(env.email),
            config.acme_dir@ == or_else(env.acme_dir, acme_dir_for(container)),
            config.acme_staging == (env.staging matches Some(value) && says_yes(value@)),
    {
        let dir = default_acme_dir(container);
        ServerTlsConfig {
            cert_path: or_default(env.cert, CERT_PATH),
            key_path: or_default(env.key, KEY_PATH),
            sans: parse_sans(env.san),
            acme_domain: keep_filled(env.domain),
            acme_email: keep_filled(env.email),
            acme_dir: or_default(env.acme_dir, &dir),
            acme_staging: match &env.staging {
                Some(value) => is_yes(value),
                None => false,
            },
        }
    }

    pub open spec fn default_paths(&self) -> bool {
        path_of(self.cert_path@) == path_of(CERT_PATH@) && path_of(self.key_path@) == path_of(KEY_PATH@)
    }

    pub fn uses_default_paths(&self) -> (yes: bool)
        ensures
            yes == self.default_paths(),
    {
        same_path(&self.cert_path, CERT_PATH) && same_path(&self.key_path, KEY_PATH)
    }

    /// ACME needs a public name and the default paths: a certificate of one's
    /// own goes first.
    pub fn acme_enabled(&self) -> (yes: bool)
        ensures
            yes == (self.acme_domain matches Some(name) && public_name(name@) && self.default_paths()),
    {
        match &self.acme_domain {
            Some(name) => looks_like_public_dns_name(name) && self.uses_default_paths(),
            None => false,
        }
    }

    /// Whether a name is one of the server's own.
    pub open spec fn is_own(&self, name: Seq<char>) -> bool {
        string_views(self.sans@).contains(name) || (self.acme_domain matches Some(domain) && domain@ == name)
    }

    /// The names that the server speaks TLS for itself, in order, each once.
    pub fn local_hostnames(&self) -> (names: Vec<String>)
        ensures
            ascending(string_views(names@)),
            forall|name: Seq<char>| #[trigger]
                string_views(names@).contains(name) <==> self.is_own(name) && name.len() > 0,
    {
        let mut sorted: Vec<Vec<char>> = Vec::new();
        let ghost sans = string_views(self.sans@);
        let mut i: usize = 0;
        assert(views(sorted@) =~= Seq::empty());
        while i < self.sans.len()
            invariant
                i <= self.sans@.len(),
                sans == string_views(self.sans@),
                ascending(views(sorted@)),
                forall|name: Seq<char>| #[trigger]
                    views(sorted@).contains(name) <==> sans.take(i as int).contains(name) && name.len() > 0,
            decreases self.sans@.len() - i,
        {
            let name = chars_of(&self.sans[i]);
            proof {
                assert(sans[i as int] == name@);
                lemma_take_contains(sans, i as int);
            }
            if name.len() > 0 {
                insert_in_order(&mut sorted, name);
            }
            i = i + 1;
        }
        assert(sans.take(i as int) =~= sans);
        if let Some(domain) = &self.acme_domain {
            let name = chars_of(domain);
            if name.len() > 0 {
                insert_in_order(&mut sorted, name);
            }
        }
        let mut names: Vec<String> = Vec::new();
        let mut k: usize = 0;
        while k < sorted.len()
            invariant
                k <= sorted@.len(),
                names@.len() == k,
                forall|j: int| 0 <= j < k ==> #[trigger] names@[j]@ == sorted@[j]@,
            decreases sorted@.len() - k,
        {
            names.push(string_of(&sorted[k]));
            k = k + 1;
        }
        assert(string_views(names@) =~= views(sorted@));
        names
    }
}

proof fn lemma_take_contains(s: Seq<Seq<char>>, i: int)
    requires
        0 <= i < s.len(),
    ensures
        forall|n: Seq<char>| #[trigger] s.take(i + 1).contains(n) <==> s.take(i).contains(n) || n == s[i],
{
    assert forall|n: Seq<char>| #[trigger] s.take(i + 1).contains(n) <==> s.take(i).contains(n) || n == s[i] by {
        if s.take(i).contains(n) {
            let k = s.take(i).index_of(n);
            assert(s.take(i + 1)[k] == n);
        }
        if n == s[i] {
            assert(s.take(i + 1)[i] == n);
        }
        if s.take(i + 1).contains(n) && n != s[i] {
            let k = s.take(i + 1).index_of(n);
            assert(s.take(i)[k] == n);
        }
    }
}

// ---------------------------------------------------------------------------
// Certificates and keys in files
// ---------------------------------------------------------------------------

/// `-----BEGIN`.
pub const PEM_START: [u8; 10] = [45, 45, 45, 45, 45, 66, 69, 71, 73, 78];

pub open spec fn is_pem(bytes: Seq<u8>) -> bool {
    bytes.len() >= 10 && bytes.take(10) == PEM_START@
}

pub fn looks_like_pem(bytes: &[u8]) -> (yes: bool)
    ensures
        yes == is_pem(bytes@),
{
    if bytes.len() < 10 {
        return false;
    }
    let start = PEM_START;
    let head = vstd::slice::slice_subrange(bytes, 0, 10);
    assert(head@ =~= bytes@.take(10));
    same_bytes(head, &start)
}

/// The certificates in a PEM file; nothing where it is broken.
pub uninterp spec fn pem_certificates(bytes: Seq<u8>) -> Option<Seq<Seq<u8>>>;

/// `rustls_pemfile::certs`, collected: the certificates in DER.
#[verifier::external_body]
fn read_pem_certificates(bytes: &[u8]) -> (certs: Option<Vec<Vec<u8>>>)
    ensures
        match certs {
            Some(certs) => pem_certificates(bytes@) == Some(byte_views(certs@)),
            None => pem_certificates(bytes@) is None,
        },
{
    let mut reader = bytes;
    rustls_pemfile::certs(&mut reader).map(|cert| cert.ok().map(|cert| cert.to_vec())).collect()
}

/// The forms that a private key comes in.
#[derive(Clone, Copy, Debug, PartialEq, Eq, Structural)]
pub enum KeyKind {
    Pkcs1,
    Sec1,
    Pkcs8,
}

/// The first private key in a PEM file: nothing where the file is broken,
/// `Some(None)` where there is none.
pub uninterp spec fn pem_private_key(bytes: Seq<u8>) -> Option<Option<(KeyKind, Seq<u8>)>>;

/// `rustls_pemfile::private_key`: the first private key; none too where it
/// comes in yet another form.
#[verifier::external_body]
fn read_pem_private_key(bytes: &[u8]) -> (key: Option<Option<(KeyKind, Vec<u8>)>>)
    ensures
        match key {
            None => pem_private_key(bytes@) is None,
            Some(None) => pem_private_key(bytes@) == Some(None::<(KeyKind, Seq<u8>)>),
            Some(Some(key)) => pem_private_key(bytes@) == Some(Some((key.0, key.1@))),
        },
{
    let mut reader = bytes;
    match rustls_pemfile::private_key(&mut reader).ok()? {
        Some(PrivateKeyDer::Pkcs1(key)) => Some(Some((KeyKind::Pkcs1, key.secret_pkcs1_der().to_vec()))),
        Some(PrivateKeyDer::Sec1(key)) => Some(Some((KeyKind::Sec1, key.secret_sec1_der().to_vec()))),
        Some(PrivateKeyDer::Pkcs8(key)) => Some(Some((KeyKind::Pkcs8, key.secret_pkcs8_der().to_vec()))),
        Some(_) => Some(None),
        None => Some(None),
    }
}

#[derive(Clone, Copy, Debug, PartialEq, Eq, Structural)]
pub enum IdentityError {
    /// invalid certificate PEM
    BadCertificatePem,
    /// no certificates in the file
    NoCertificates,
    /// invalid private key PEM
    BadKeyPem,
    /// no private key in the file
    NoKey,
    /// TLS certificate or key is missing
    Missing,
    /// cannot read the pinned TLS certificate
    NoPin,
    /// no self-signed certificate could be made
    Generation,
}

/// The certificates in a file, for what its PEM sections hold.
pub open spec fn certificates_of(bytes: Seq<u8>, pem: Option<Seq<Seq<u8>>>) -> Result<Seq<Seq<u8>>, IdentityError> {
    if !is_pem(bytes) {
        Ok(seq![bytes])
    } else {
        match pem {
            None => Err(IdentityError::BadCertificatePem),
            Some(certs) => if certs.len() == 0 {
                Err(IdentityError::NoCertificates)
            } else {
                Ok(certs)
            },
        }
    }
}

/// Takes the certificates of a PEM file; at least one.
pub fn take_certificates(pem: Option<Vec<Vec<u8>>>) -> (certs: Result<Vec<Vec<u8>>, IdentityError>)
    ensures
        match pem {
            None => certs == Err::<Vec<Vec<u8>>, IdentityError>(IdentityError::BadCertificatePem),
            Some(pem) => if pem@.len() == 0 {
                certs == Err::<Vec<Vec<u8>>, IdentityError>(IdentityError::NoCertificates)
            } else {
                certs == Ok::<Vec<Vec<u8>>, IdentityError>(pem)
            },
        },
{
    match pem {
        None => Err(IdentityError::BadCertificatePem),
        Some(certs) => {
            if certs.len() == 0 {
                return Err(IdentityError::NoCertificates);
            }
            Ok(certs)
        },
    }
}

/// The certificates in a file, which is PEM or one certificate in DER.
pub fn load_certificates(bytes: &[u8]) -> (certs: Result<Vec<Vec<u8>>, IdentityError>)
    ensures
        match certs {
            Ok(certs) => certificates_of(bytes@, pem_certificates(bytes@)) == Ok::<Seq<Seq<u8>>, IdentityError>(
                byte_views(certs@),
            ),
            Err(error) => certificates_of(bytes@, pem_certificates(bytes@)) == Err::<Seq<Seq<u8>>, IdentityError>(
                error,
            ),
        },
{
    if looks_like_pem(bytes) {
        return take_certificates(read_pem_certificates(bytes));
    }
    let mut certs: Vec<Vec<u8>> = Vec::new();
    certs.push(vstd::slice::slice_to_vec(bytes));
    assert(byte_views(certs@) =~= seq![bytes@]);
    Ok(certs)
}

/// The private key in a file, for what its PEM sections hold.
pub open spec fn private_key_of(
    bytes: Seq<u8>,
    pem: Option<Option<(KeyKind, Seq<u8>)>>,
) -> Result<(KeyKind, Seq<u8>), IdentityError> {
    if !is_pem(bytes) {
        Ok((KeyKind::Pkcs8, bytes))
    } else {
        match pem {
            None => Err(IdentityError::BadKeyPem),
            Some(None) => Err(IdentityError::NoKey),
            Some(Some(key)) => Ok(key),
        }
    }
}

/// Takes the private key of a PEM file.
pub fn take_private_key(pem: Option<Option<(KeyKind, Vec<u8>)>>) -> (key: Result<(KeyKind, Vec<u8>), IdentityError>)
    ensures
        key == (match pem {
            None => Err::<(KeyKind, Vec<u8>), IdentityError>(IdentityError::BadKeyPem),
            Some(None) => Err(IdentityError::NoKey),
            Some(Some(key)) => Ok(key),
        }),
{
    match pem {
        None => Err(IdentityError::BadKeyPem),
        Some(None) => Err(IdentityError::NoKey),
        Some(Some(key)) => Ok(key),
    }
}

/// The private key in a file, which is PEM or PKCS #8 in DER.
pub fn load_private_key(bytes: &[u8]) -> (key: Result<(KeyKind, Vec<u8>), IdentityError>)
    ensures
        match key {
            Ok(key) => private_key_of(bytes@, pem_private_key(bytes@)) == Ok::<(KeyKind, Seq<u8>), IdentityError>(
                (key.0, key.1@),
            ),
            Err(error) => private_key_of(bytes@, pem_private_key(bytes@)) == Err::<
                (KeyKind, Seq<u8>),
                IdentityError,
            >(error),
        },
{
    if looks_like_pem(bytes) {
        return take_private_key(read_pem_private_key(bytes));
    }
    Ok((KeyKind::Pkcs8, vstd::slice::slice_to_vec(bytes)))
}

/// Whether names hold ASCII characters only.
pub open spec fn all_ascii(names: Seq<Seq<char>>) -> bool {
    forall|i: int, k: int| 0 <= i < names.len() && 0 <= k < names[i].len() ==> (#[trigger] names[i][k]) as u32 <= 127
}

pub open spec fn stands_in(part: Seq<u8>, whole: Seq<u8>) -> bool {
    exists|at: int| 0 <= at && at + part.len() <= whole.len() && #[trigger] whole.subrange(at, at + part.len()) == part
}

/// The bytes of a P-256 public key: a mark and two coordinates.
pub const PUBLIC_KEY_LEN: usize = 65;

/// The base-256 digits of a number, most significant first, none too many.
pub open spec fn digits_of(n: nat) -> Seq<u8>
    decreases n,
{
    if n < 256 {
        seq![n as u8]
    } else {
        digits_of(n / 256).push((n % 256) as u8)
    }
}

/// A value in DER: its tag, its length and its bytes.
pub open spec fn der(tag: u8, bytes: Seq<u8>) -> Seq<u8> {
    let digits = digits_of(bytes.len());
    let length = if bytes.len() < 128 {
        digits
    } else {
        seq![(128 + digits.len()) as u8] + digits
    };
    seq![tag] + length + bytes
}

pub open spec fn der_sequence(bytes: Seq<u8>) -> bool {
    exists|inner: Seq<u8>| bytes == #[trigger] der(0x30, inner)
}

/// What stands for a name in a certificate: the octets of an IP address, or
/// the name as it is spelled.
pub open spec fn name_bytes(name: Seq<char>) -> Seq<u8> {
    match ip_in(name) {
        None => vstd::utf8::encode_utf8(name),
        Some(IpValue::V4(octets)) => octets,
        Some(IpValue::V6(groups)) => groups.map_values(|group: u16| be_bytes(group as nat, 2)).flatten(),
    }
}

/// A name among the alternative names of a certificate.
pub open spec fn general_name(name: Seq<char>) -> Seq<u8> {
    let tag: u8 = if ip_text(name) {
        0x87
    } else {
        0x82
    };
    der(tag, name_bytes(name))
}

/// The extension that holds the alternative names of a certificate: its
/// identifier and its value.
pub open spec fn alternative_names(names: Seq<Seq<char>>) -> Seq<u8> {
    let list = names.map_values(|name: Seq<char>| general_name(name)).flatten();
    seq![0x06u8, 0x03, 0x55, 0x1d, 0x11] + der(0x04, der(0x30, list))
}

/// Whether a certificate and its key are DER sequences, the certificate holds
/// the public key that the key ends with, and its alternative names are the
/// names, all of them and in their order.
pub open spec fn made_for(cert: Seq<u8>, key: Seq<u8>, names: Seq<Seq<char>>) -> bool {
    &&& der_sequence(cert)
    &&& der_sequence(key)
    &&& key.len() > PUBLIC_KEY_LEN && stands_in(key.skip(key.len() - PUBLIC_KEY_LEN), cert)
    &&& forall|i: int| 0 <= i < names.len() ==> stands_in(name_bytes(#[trigger] names[i]), cert)
    &&& names.len() > 0 ==> stands_in(alternative_names(names), cert)
}

/// `rcgen::generate_simple_self_signed`: a certificate for the names with a
/// fresh key, both in DER; `None` where a name is not ASCII or the generator
/// fails. Each is one DER sequence. The key is a P-256 key in PKCS #8, whose
/// last bytes are its public key, and the certificate holds that public key.
/// The names stand in the certificate as its alternative names: a name that
/// is no IP address as it is spelled, an IP address as its octets. The public
/// key itself, the serial number and the signature rest on chance, and
/// nothing is stated of them.
#[verifier::external_body]
fn self_signed(names: Vec<String>) -> (pair: Option<(Vec<u8>, Vec<u8>)>)
    ensures
        pair matches Some(made) ==> all_ascii(string_views(names@)) && made_for(
            made.0@,
            made.1@,
            string_views(names@),
        ),
{
    let CertifiedKey { cert, signing_key } = generate_simple_self_signed(names).ok()?;
    Some((cert.der().to_vec(), signing_key.serialize_der()))
}

/// What to do about the server's certificate.
#[derive(Debug)]
pub enum IdentityPlan {
    /// It is there.
    Keep,
    /// Make one for these names.
    Generate(Vec<String>),
}

fn copy_names(names: &Vec<String>) -> (out: Vec<String>)
    ensures
        string_views(out@) == string_views(names@),
{
    let mut out: Vec<String> = Vec::new();
    let mut i: usize = 0;
    while i < names.len()
        invariant
            i <= names@.len(),
            out@.len() == i,
            forall|j: int| 0 <= j < i ==> #[trigger] out@[j]@ == names@[j]@,
        decreases names@.len() - i,
    {
        out.push(text(&names[i]));
        i = i + 1;
    }
    assert(string_views(out@) =~= string_views(names@));
    out
}

/// The names of a generated certificate: the configured ones, and the ACME
/// domain where it is public and not among them.
pub open spec fn names_to_sign(config: ServerTlsConfig) -> Seq<Seq<char>> {
    let names = string_views(config.sans@);
    match config.acme_domain {
        Some(domain) => if public_name(domain@) && !listed(config.sans@, domain@) {
            names.push(domain@)
        } else {
            names
        },
        None => names,
    }
}

/// Whether a certificate has to be made. One is made on the default paths
/// only; a missing one elsewhere is an error.
pub fn plan_identity(
    config: &ServerTlsConfig,
    cert_is_there: bool,
    key_is_there: bool,
) -> (plan: Result<IdentityPlan, IdentityError>)
    ensures
        if cert_is_there && key_is_there {
            plan matches Ok(IdentityPlan::Keep)
        } else if !config.default_paths() {
            plan == Err::<IdentityPlan, IdentityError>(IdentityError::Missing)
        } else {
            plan matches Ok(IdentityPlan::Generate(names)) && string_views(names@) == names_to_sign(*config)
        },
{
    if cert_is_there && key_is_there {
        return Ok(IdentityPlan::Keep);
    }
    if !config.uses_default_paths() {
        return Err(IdentityError::Missing);
    }
    let mut names = copy_names(&config.sans);
    if let Some(domain) = &config.acme_domain {
        if looks_like_public_dns_name(domain) && !is_listed(&config.sans, &chars_of(domain)) {
            let ghost before = string_views(names@);
            names.push(text(domain));
            assert(string_views(names@) =~= before.push(domain@));
        }
    }
    Ok(IdentityPlan::Generate(names))
}

/// The certificate and key that were made, or the error where none were.
pub fn take_identity(made: Option<(Vec<u8>, Vec<u8>)>) -> (pair: Result<(Vec<u8>, Vec<u8>), IdentityError>)
    ensures
        match made {
            Some(made) => pair == Ok::<(Vec<u8>, Vec<u8>), IdentityError>(made),
            None => pair == Err::<(Vec<u8>, Vec<u8>), IdentityError>(IdentityError::Generation),
        },
{
    match made {
        Some(pair) => Ok(pair),
        None => Err(IdentityError::Generation),
    }
}

/// Makes a certificate for the names and the key that belongs to it, in DER.
/// There is none for a name that is not ASCII, nor where no key could be
/// generated.
pub fn generate_identity(names: Vec<String>) -> (pair: Result<(Vec<u8>, Vec<u8>), IdentityError>)
    ensures
        match pair {
            Ok(made) => all_ascii(string_views(names@)) && made_for(made.0@, made.1@, string_views(names@)),
            Err(error) => error == IdentityError::Generation,
        },
{
    take_identity(self_signed(names))
}

/// A generated identity can be loaded: its certificate is read back as the
/// only one of its file, and its key as the PKCS #8 key of its file.
pub proof fn law_identity_loads(cert: Seq<u8>, key: Seq<u8>, names: Seq<Seq<char>>)
    requires
        made_for(cert, key, names),
    ensures
        certificates_of(cert, pem_certificates(cert)) == Ok::<Seq<Seq<u8>>, IdentityError>(seq![cert]),
        private_key_of(key, pem_private_key(key)) == Ok::<(KeyKind, Seq<u8>), IdentityError>((KeyKind::Pkcs8, key)),
{
    let inner = choose|inner: Seq<u8>| cert == #[trigger] der(0x30, inner);
    assert(cert[0] == 0x30);
    let inner = choose|inner: Seq<u8>| key == #[trigger] der(0x30, inner);
    assert(key[0] == 0x30);
    assert(!is_pem(cert)) by {
        if is_pem(cert) {
            assert(cert.take(10)[0] == PEM_START@[0]);
        }
    }
    assert(!is_pem(key)) by {
        if is_pem(key) {
            assert(key.take(10)[0] == PEM_START@[0]);
        }
    }
}

// ---------------------------------------------------------------------------
// The client's settings
// ---------------------------------------------------------------------------

/// How the client knows the server.
#[derive(Clone, Debug)]
pub struct ClientTlsConfig {
    /// The name that the certificate has to be for.
    pub server_name: String,
    /// A certificate to trust.
    pub pin_path: String,
    /// Whether to trust the public roots.
    pub use_webpki: bool,
    /// REALITY on the TCP path.
    pub reality: Option<RealityClientConfig>,
}

impl Default for ClientTlsConfig {
    fn default() -> (config: Self)
        ensures
            config.server_name@ == SERVER_NAME@,
            config.pin_path@ == CERT_PATH@,
            !config.use_webpki,
            config.reality is None,
    {
        ClientTlsConfig { server_name: text(SERVER_NAME), pin_path: text(CERT_PATH), use_webpki: false, reality: None }
    }
}

/// `system`, `webpki`, `public`, `1` or `true`, in any case.
pub open spec fn says_public(value: Seq<char>) -> bool {
    let value = lower_all(value);
    value == "system"@ || value == "webpki"@ || value == "public"@ || value == "1"@ || value == "true"@
}

pub fn is_public(value: &str) -> (yes: bool)
    ensures
        yes == says_public(value@),
{
    let value = lowered(&chars_of(value));
    spells(&value, "system") || spells(&value, "webpki") || spells(&value, "public") || spells(&value, "1") || spells(
        &value,
        "true",
    )
}

impl ClientTlsConfig {
    /// The settings in the environment: a name, a pin, else a certificate, and
    /// whom to trust.
    pub fn from_env(
        name: Option<String>,
        pin: Option<String>,
        cert: Option<String>,
        ca: Option<String>,
    ) -> (config: Self)
        ensures
            config.server_name@ == (match filled(name) {
                Some(name) => name,
                None => SERVER_NAME@,
            }),
            config.pin_path@ == or_else(pin, or_else(cert, CERT_PATH@)),
            config.use_webpki == (ca matches Some(value) && says_public(value@)),
            config.reality is None,
    {
        let cert = or_default(cert, CERT_PATH);
        ClientTlsConfig {
            server_name: match keep_filled(name) {
                Some(name) => name,
                None => text(SERVER_NAME),
            },
            pin_path: or_default(pin, &cert),
            use_webpki: match &ca {
                Some(value) => is_public(value),
                None => false,
            },
            reality: None,
        }
    }

    /// Whether the pinned certificate goes into the client's roots. Without
    /// it, and without the public roots, there is nothing to trust.
    pub fn trusts_pin(&self, pin_is_there: bool) -> (pin: Result<bool, IdentityError>)
        ensures
            pin == (if pin_is_there {
                Ok::<bool, IdentityError>(true)
            } else if self.use_webpki {
                Ok(false)
            } else {
                Err(IdentityError::NoPin)
            }),
    {
        if pin_is_there {
            Ok(true)
        } else if self.use_webpki {
            Ok(false)
        } else {
            Err(IdentityError::NoPin)
        }
    }
}

} // verus!
