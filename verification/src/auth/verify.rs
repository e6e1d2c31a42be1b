//! Who may come in: signature, validity period and revocation of a token.

use vstd::prelude::*;

use super::keys::{VerificationKeyRing, VerifyingKey};
use super::token::{AuthError, SubscriptionClaims, SubscriptionToken, TOKEN_ID_SIZE};
use crate::clock::unix_seconds;
use crate::text::{
    all_hex, chars_of, hex_bytes, hex_chars, hex_text, is_all_hex, is_space, law_hex_roundtrip, lemma_split_nonempty,
    parse_hex, split, split_at, string_of, trim, trim_prefixes, trimmed, views, without_prefixes,
};
use crate::wire::{array_at, same_bytes};

verus! {

/// How far the clocks of issuer and server may be apart.
pub const CLOCK_SKEW_SECONDS: u64 = 300;

/// The ids of tokens that are no longer good.
pub trait RevocationStore {
    spec fn ids(&self) -> Set<Seq<u8>>;

    fn is_revoked(&self, token_id: &[u8; TOKEN_ID_SIZE]) -> (yes: bool)
        ensures
            yes == self.ids().contains(token_id@),
    ;
}

/// Revoked ids in memory, each once.
pub struct MemoryRevocationStore {
    revoked: Vec<[u8; TOKEN_ID_SIZE]>,
}

impl MemoryRevocationStore {
    #[verifier::type_invariant]
    spec fn distinct(self) -> bool {
        forall|i: int, j: int| 0 <= i < j < self.revoked@.len() ==> self.revoked@[i]@ != self.revoked@[j]@
    }

    pub closed spec fn holds(self, id: Seq<u8>) -> bool {
        exists|i: int| 0 <= i < self.revoked@.len() && #[trigger] self.revoked@[i]@ == id
    }

    pub fn new() -> (store: Self)
        ensures
            store.ids() == Set::<Seq<u8>>::empty(),
    {
        let store = MemoryRevocationStore { revoked: Vec::new() };
        assert(store.ids() =~= Set::empty());
        store
    }

    pub fn revoke(&mut self, token_id: [u8; TOKEN_ID_SIZE])
        ensures
            final(self).ids() == old(self).ids().insert(token_id@),
    {
        proof {
            use_type_invariant(&*self);
        }
        if self.is_revoked(&token_id) {
            assert(self.ids() =~= old(self).ids().insert(token_id@));
            return;
        }
        let mut revoked: Vec<[u8; TOKEN_ID_SIZE]> = Vec::new();
        std::mem::swap(&mut revoked, &mut self.revoked);
        let ghost before = revoked@;
        revoked.push(token_id);
        assert forall|i: int, j: int| 0 <= i < j < revoked@.len() implies revoked@[i]@ != revoked@[j]@ by {
            assert(revoked@[i] == before[i]);
            if j < before.len() {
                assert(revoked@[j] == before[j]);
            }
        }
        self.revoked = revoked;
        proof {
            assert forall|id: Seq<u8>| self.holds(id) == (old(self).holds(id) || id == token_id@) by {
                if old(self).holds(id) {
                    let i = choose|i: int| 0 <= i < before.len() && #[trigger] before[i]@ == id;
                    assert(self.revoked@[i]@ == id);
                }
                if id == token_id@ {
                    assert(self.revoked@[before.len() as int]@ == id);
                }
                if self.holds(id) {
                    let i = choose|i: int| 0 <= i < self.revoked@.len() && #[trigger] self.revoked@[i]@ == id;
                    if i < before.len() {
                        assert(before[i]@ == id);
                    }
                }
            }
            assert(self.ids() =~= old(self).ids().insert(token_id@));
        }
    }
}

impl Default for MemoryRevocationStore {
    fn default() -> (store: Self)
        ensures
            store.ids() == Set::<Seq<u8>>::empty(),
    {
        Self::new()
    }
}

impl RevocationStore for MemoryRevocationStore {
    open spec fn ids(&self) -> Set<Seq<u8>> {
        Set::new(|id: Seq<u8>| self.holds(id))
    }

    fn is_revoked(&self, token_id: &[u8; TOKEN_ID_SIZE]) -> (yes: bool) {
        let mut i: usize = 0;
        while i < self.revoked.len()
            invariant
                i <= self.revoked@.len(),
                forall|j: int| 0 <= j < i ==> self.revoked@[j]@ != token_id@,
            decreases self.revoked@.len() - i,
        {
            if same_bytes(&self.revoked[i], token_id) {
                assert(self.revoked@[i as int]@ == token_id@);
                return true;
            }
            i = i + 1;
        }
        false
    }
}

/// The id that a line of a revocation list names: 32 hexadecimal digits,
/// white space and `0x` before them aside.
pub open spec fn token_id_in(line: Seq<char>) -> Option<Seq<u8>> {
    let hex = trim_prefixes(trim(line), seq!['0', 'x']);
    if hex.len() == 2 * TOKEN_ID_SIZE && all_hex(hex) {
        Some(hex_bytes(hex))
    } else {
        None
    }
}

/// The ids that the lines of a revocation list name.
pub open spec fn ids_in(text: Seq<char>) -> Set<Seq<u8>> {
    Set::new(|id: Seq<u8>| names_id(split(text, seq!['\n']), id))
}

pub open spec fn names_id(lines: Seq<Seq<char>>, id: Seq<u8>) -> bool {
    exists|i: int| 0 <= i < lines.len() && token_id_in(#[trigger] lines[i]) == Some(id)
}

pub fn token_id_hex(token_id: &[u8; TOKEN_ID_SIZE]) -> (hex: String)
    ensures
        hex@ == hex_text(token_id@),
{
    string_of(&hex_chars(token_id))
}

fn token_id_of(line: &[char]) -> (id: Option<[u8; TOKEN_ID_SIZE]>)
    ensures
        match id {
            Some(id) => token_id_in(line@) == Some(id@),
            None => token_id_in(line@) is None,
        },
{
    let prefix: [char; 2] = ['0', 'x'];
    assert(prefix@ =~= seq!['0', 'x']);
    let hex = without_prefixes(trimmed(line), &prefix);
    if hex.len() != 2 * TOKEN_ID_SIZE || !is_all_hex(hex) {
        return None;
    }
    let bytes = parse_hex(hex);
    let id: [u8; TOKEN_ID_SIZE] = array_at(&bytes, 0);
    assert(id@ =~= bytes@);
    Some(id)
}

pub fn parse_token_id_hex(line: &str) -> (id: Option<[u8; TOKEN_ID_SIZE]>)
    ensures
        match id {
            Some(id) => token_id_in(line@) == Some(id@),
            None => token_id_in(line@) is None,
        },
{
    token_id_of(&chars_of(line))
}

/// The ids in the text of a revocation list, one to a line; other lines do
/// not count.
pub fn load_revoked_ids(text: &str) -> (store: MemoryRevocationStore)
    ensures
        store.ids() == ids_in(text@),
{
    let newline: [char; 1] = ['\n'];
    assert(newline@ =~= seq!['\n']);
    let lines = split_at(&chars_of(text), &newline);
    let ghost all = split(text@, seq!['\n']);
    let mut store = MemoryRevocationStore::new();
    let mut i: usize = 0;
    assert(store.ids() =~= Set::new(|id: Seq<u8>| names_id(all.take(0), id)));
    while i < lines.len()
        invariant
            i <= lines@.len(),
            views(lines@) == all,
            store.ids() == Set::new(|id: Seq<u8>| names_id(all.take(i as int), id)),
        decreases lines@.len() - i,
    {
        assert(lines@[i as int]@ == all[i as int]);
        let found = token_id_of(&lines[i]);
        let ghost before = store.ids();
        if let Some(id) = found {
            store.revoke(id);
        }
        proof {
            let now = all.take(i + 1);
            assert forall|id: Seq<u8>| names_id(now, id) == (names_id(all.take(i as int), id) || token_id_in(
                all[i as int],
            ) == Some(id)) by {
                if names_id(all.take(i as int), id) {
                    let k = choose|k: int| 0 <= k < i && token_id_in(#[trigger] all.take(i as int)[k]) == Some(id);
                    assert(now[k] == all.take(i as int)[k]);
                }
                if token_id_in(all[i as int]) == Some(id) {
                    assert(now[i as int] == all[i as int]);
                }
                if names_id(now, id) {
                    let k = choose|k: int| 0 <= k < now.len() && token_id_in(#[trigger] now[k]) == Some(id);
                    if k < i {
                        assert(all.take(i as int)[k] == now[k]);
                    }
                }
            }
            assert(store.ids() =~= Set::new(|id: Seq<u8>| names_id(now, id)));
        }
        i = i + 1;
    }
    assert(all.take(i as int) =~= all);
    store
}

/// A revocation list with one more id at its end, on a line of its own.
pub open spec fn with_id(text: Seq<char>, id: Seq<u8>) -> Seq<char> {
    let whole = if text.len() > 0 && text.last() != '\n' {
        text.push('\n')
    } else {
        text
    };
    whole + hex_text(id).push('\n')
}

/// The list with `token_id` added, or nothing where it is there already.
pub fn append_revoked_id(text: &str, token_id: [u8; TOKEN_ID_SIZE]) -> (out: Option<String>)
    ensures
        match out {
            Some(new) => !ids_in(text@).contains(token_id@) && new@ == with_id(text@, token_id@),
            None => ids_in(text@).contains(token_id@),
        },
{
    if load_revoked_ids(text).is_revoked(&token_id) {
        return None;
    }
    let mut chars = chars_of(text);
    if chars.len() > 0 && chars[chars.len() - 1] != '\n' {
        chars.push('\n');
    }
    let mut line = hex_chars(&token_id);
    line.push('\n');
    chars.append(&mut line);
    assert(chars@ =~= with_id(text@, token_id@));
    Some(string_of(&chars))
}

/// The revocation list of a file, read again when the file has changed.
pub struct FileRevocationStore {
    path: String,
    mtime: Option<u128>,
    cache: MemoryRevocationStore,
}

impl FileRevocationStore {
    /// When the cached list was written, as far as it is known.
    pub closed spec fn time(self) -> Option<u128> {
        self.mtime
    }

    pub closed spec fn name(self) -> Seq<char> {
        self.path@
    }

    /// A store with nothing read yet.
    pub fn open(path: &str) -> (store: Self)
        ensures
            store.name() == path@,
            store.time() is None,
            store.ids() == Set::<Seq<u8>>::empty(),
    {
        FileRevocationStore { path: path.to_owned(), mtime: None, cache: MemoryRevocationStore::new() }
    }

    pub fn path(&self) -> (path: &str)
        ensures
            path@ == self.name(),
    {
        self.path.as_str()
    }

    /// Whether the file, last written at `mtime`, has to be read again.
    pub fn is_stale(&self, mtime: Option<u128>) -> (stale: bool)
        ensures
            stale == (self.time() != mtime),
    {
        match (self.mtime, mtime) {
            (None, None) => false,
            (Some(a), Some(b)) => a != b,
            _ => true,
        }
    }

    /// Takes over the file's text (none where it cannot be read) if it is
    /// newer than the cached list.
    pub fn refresh(&mut self, mtime: Option<u128>, text: Option<&str>)
        ensures
            final(self).name() == old(self).name(),
            final(self).time() == mtime,
            final(self).ids() == (if old(self).time() == mtime {
                old(self).ids()
            } else {
                match text {
                    Some(text) => ids_in(text@),
                    None => Set::empty(),
                }
            }),
    {
        if self.is_stale(mtime) {
            self.cache = match text {
                Some(text) => load_revoked_ids(text),
                None => MemoryRevocationStore::new(),
            };
            self.mtime = mtime;
        }
    }
}

impl RevocationStore for FileRevocationStore {
    closed spec fn ids(&self) -> Set<Seq<u8>> {
        self.cache.ids()
    }

    fn is_revoked(&self, token_id: &[u8; TOKEN_ID_SIZE]) -> (yes: bool) {
        self.cache.is_revoked(token_id)
    }
}

/// What becomes of a token at time `now`. The first fault counts: unknown
/// key, bad signature, empty validity period, issued in the future, not valid
/// yet, expired, revoked.
pub open spec fn verdict(
    keys: Map<u32, VerifyingKey>,
    revoked: Set<Seq<u8>>,
    token: SubscriptionToken,
    now: u64,
) -> Result<SubscriptionClaims, AuthError> {
    let claims = token.claims;
    if !keys.contains_key(claims.key_id) {
        Err(AuthError::UnknownKeyId(claims.key_id))
    } else if !token.signed_by(keys[claims.key_id]) {
        Err(AuthError::InvalidSignature)
    } else if claims.expires_at <= claims.not_before {
        Err(AuthError::InvalidTimeRange)
    } else if claims.issued_at > now + CLOCK_SKEW_SECONDS {
        Err(AuthError::IssuedInFuture)
    } else if claims.not_before > now + CLOCK_SKEW_SECONDS {
        Err(AuthError::NotYetValid)
    } else if now >= claims.expires_at {
        Err(AuthError::Expired)
    } else if revoked.contains(claims.token_id@) {
        Err(AuthError::Revoked)
    } else {
        Ok(claims)
    }
}

pub struct SubscriptionVerifier<R: RevocationStore> {
    pub keys: VerificationKeyRing,
    pub revocations: R,
}

impl<R: RevocationStore> SubscriptionVerifier<R> {
    pub open spec fn verdict_at(self, token: SubscriptionToken, now: u64) -> Result<SubscriptionClaims, AuthError> {
        verdict(self.keys@, self.revocations.ids(), token, now)
    }

    pub fn new(keys: VerificationKeyRing, revocations: R) -> (verifying: Self)
        ensures
            verifying.keys == keys,
            verifying.revocations == revocations,
    {
        SubscriptionVerifier { keys, revocations }
    }

    /// The verdict at the present time.
    pub fn verify(&self, token: &SubscriptionToken) -> (result: Result<SubscriptionClaims, AuthError>)
        ensures
            exists|now: u64| result == #[trigger] self.verdict_at(*token, now),
    {
        let now: u64 = unix_seconds();
        self.verify_at(token, now)
    }

    pub fn verify_at(&self, token: &SubscriptionToken, now: u64) -> (result: Result<SubscriptionClaims, AuthError>)
        ensures
            result == self.verdict_at(*token, now),
    {
        let claims = &token.claims;
        let verifying_key = match self.keys.get(claims.key_id) {
            Ok(key) => key,
            Err(error) => return Err(error),
        };
        if let Err(error) = token.verify_signature(verifying_key) {
            return Err(error);
        }
        if claims.expires_at <= claims.not_before {
            return Err(AuthError::InvalidTimeRange);
        }
        let latest: u64 = now.saturating_add(CLOCK_SKEW_SECONDS);
        if claims.issued_at > latest {
            return Err(AuthError::IssuedInFuture);
        }
        if latest < claims.not_before {
            return Err(AuthError::NotYetValid);
        }
        if now >= claims.expires_at {
            return Err(AuthError::Expired);
        }
        if self.revocations.is_revoked(&claims.token_id) {
            return Err(AuthError::Revoked);
        }
        Ok(*claims)
    }
}

/// A token that is good now stays good until it expires, unless it is
/// revoked.
pub proof fn law_good_until_expiry(
    keys: Map<u32, VerifyingKey>,
    revoked: Set<Seq<u8>>,
    token: SubscriptionToken,
    now: u64,
    later: u64,
)
    requires
        verdict(keys, revoked, token, now) is Ok,
        now <= later,
    ensures
        later < token.claims.expires_at ==> verdict(keys, revoked, token, later) == Ok::<
            SubscriptionClaims,
            AuthError,
        >(token.claims),
        later >= token.claims.expires_at ==> verdict(keys, revoked, token, later) == Err::<
            SubscriptionClaims,
            AuthError,
        >(AuthError::Expired),
{
}

/// Once its id is revoked a token is never accepted again.
pub proof fn law_revoked_is_refused(
    keys: Map<u32, VerifyingKey>,
    revoked: Set<Seq<u8>>,
    token: SubscriptionToken,
    now: u64,
)
    ensures
        verdict(keys, revoked.insert(token.claims.token_id@), token, now) is Err,
{
}

/// Adding an id to a revocation list revokes that id and keeps the others.
pub proof fn law_appended_id_is_revoked(text: Seq<char>, id: Seq<u8>)
    requires
        id.len() == TOKEN_ID_SIZE,
    ensures
        ids_in(with_id(text, id)) == ids_in(text).insert(id),
{
    let nl = seq!['\n'];
    assert(nl.contains('\n')) by {
        assert(nl[0] == '\n');
    }
    let whole = if text.len() > 0 && text.last() != '\n' {
        text.push('\n')
    } else {
        text
    };
    let hex = hex_text(id);
    law_hex_roundtrip(id);
    lemma_hex_line(id);
    let lines = split(text, nl);
    lemma_split_nonempty(text, nl);
    // The list up to the new line, which begins with an empty piece.
    let upto = split(whole, nl);
    assert(upto.last() == Seq::<char>::empty() && forall|x: Seq<u8>| names_id(upto, x) == names_id(lines, x)) by {
        lemma_empty_line();
        if whole != text {
            assert(whole.drop_last() =~= text);
            assert(upto =~= lines.push(Seq::empty()));
            assert forall|x: Seq<u8>| names_id(upto, x) == names_id(lines, x) by {
                if names_id(lines, x) {
                    let i = choose|i: int| 0 <= i < lines.len() && token_id_in(#[trigger] lines[i]) == Some(x);
                    assert(upto[i] == lines[i]);
                }
                if names_id(upto, x) {
                    let i = choose|i: int| 0 <= i < upto.len() && token_id_in(#[trigger] upto[i]) == Some(x);
                    assert(i < lines.len());
                    assert(lines[i] == upto[i]);
                }
            }
        }
    }
    lemma_split_nonempty(whole, nl);
    lemma_split_extends(whole, hex, nl);
    let mid = whole + hex;
    let pieces = split(mid, nl);
    assert(with_id(text, id).drop_last() =~= mid);
    assert(with_id(text, id).last() == '\n');
    let all = split(with_id(text, id), nl);
    assert(all == pieces.push(Seq::empty()));
    assert(pieces == upto.drop_last().push(hex)) by {
        assert(upto.last() + hex =~= hex);
    }
    assert forall|x: Seq<u8>| names_id(all, x) == (names_id(lines, x) || x == id) by {
        lemma_empty_line();
        let n = upto.len() - 1;
        if names_id(upto, x) {
            let i = choose|i: int| 0 <= i < upto.len() && token_id_in(#[trigger] upto[i]) == Some(x);
            assert(i < n);
            assert(all[i] == upto[i]);
        }
        if x == id {
            assert(all[n] == hex);
        }
        if names_id(all, x) {
            let i = choose|i: int| 0 <= i < all.len() && token_id_in(#[trigger] all[i]) == Some(x);
            if i < n {
                assert(upto[i] == all[i]);
            } else if i == n {
                assert(all[i] == hex);
            } else {
                assert(all[i] == Seq::<char>::empty());
            }
        }
    }
    assert(ids_in(with_id(text, id)) =~= ids_in(text).insert(id));
}

proof fn lemma_empty_line()
    ensures
        token_id_in(Seq::<char>::empty()) is None,
{
}

proof fn lemma_hex_line(id: Seq<u8>)
    requires
        id.len() == TOKEN_ID_SIZE,
    ensures
        token_id_in(hex_text(id)) == Some(id),
{
    let hex = hex_text(id);
    law_hex_roundtrip(id);
    assert forall|i: int| 0 <= i < hex.len() implies !is_space(#[trigger] hex[i]) && hex[i] != 'x' by {}
    assert(trim(hex) == hex);
    assert(trim_prefixes(hex, seq!['0', 'x']) == hex) by {
        assert(hex.take(2)[1] == hex[1]);
        assert(seq!['0', 'x'][1] == 'x');
    }
}

/// Text without a separator goes on the last piece.
proof fn lemma_split_extends(s: Seq<char>, t: Seq<char>, seps: Seq<char>)
    requires
        forall|i: int| 0 <= i < t.len() ==> !seps.contains(#[trigger] t[i]),
    ensures
        split(s + t, seps) == split(s, seps).drop_last().push(split(s, seps).last() + t),
    decreases t.len(),
{
    lemma_split_nonempty(s, seps);
    if t.len() == 0 {
        assert(s + t =~= s);
        assert(split(s, seps).last() + t =~= split(s, seps).last());
        assert(split(s, seps).drop_last().push(split(s, seps).last()) =~= split(s, seps));
    } else {
        let u = t.drop_last();
        assert forall|i: int| 0 <= i < u.len() implies !seps.contains(#[trigger] u[i]) by {
            assert(u[i] == t[i]);
        }
        lemma_split_extends(s, u, seps);
        assert((s + t).drop_last() =~= s + u);
        assert((s + t).last() == t.last());
        assert(!seps.contains(t[t.len() - 1]));
        let left = split(s + u, seps);
        assert(left.drop_last() =~= split(s, seps).drop_last());
        assert(left.last().push(t.last()) =~= split(s, seps).last() + t);
    }
}

} // verus!
