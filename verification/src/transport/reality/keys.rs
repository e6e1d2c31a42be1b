//! REALITY keys and short ids as text.

use vstd::prelude::*;

use super::auth::x25519_public;
use crate::auth::keys::NoRandomness;
use crate::crypto::x25519_point;
use crate::random::os_random_array;
use crate::text::{
    all_hex, char_is_space, chars_of, decimal, decimal_chars, hex_bytes, hex_chars, hex_text, is_all_hex, is_space,
    joined, parse_hex, split, split_at, string_of, text, trim, trim_prefixes, trimmed, utf8_bytes, utf8_str, views,
    without_prefixes,
};
use crate::wire::array_at;

verus! {

#[derive(Clone, Copy, Debug)]
pub struct RealityKeypair {
    pub private: [u8; 32],
    pub public: [u8; 32],
}

/// The key pair of a private key.
pub fn keypair_from(private: [u8; 32]) -> (pair: RealityKeypair)
    ensures
        pair.private == private,
        pair.public@ == x25519_point(private@),
{
    RealityKeypair { private, public: x25519_public(&private) }
}

/// A key pair from random bytes of the operating system. It fails only where
/// that has none to give.
pub fn generate_keypair() -> (pair: Result<RealityKeypair, NoRandomness>)
    ensures
        pair matches Ok(pair) ==> pair.public@ == x25519_point(pair.private@),
{
    match os_random_array() {
        Some(private) => Ok(keypair_from(private)),
        None => Err(NoRandomness),
    }
}

pub fn public_from_private(private: &[u8; 32]) -> (public: [u8; 32])
    ensures
        public@ == x25519_point(private@),
{
    x25519_public(private)
}

#[derive(Debug, Clone, Copy, PartialEq, Eq, Structural)]
pub enum RealityKeyError {
    /// empty REALITY key
    Empty,
    /// REALITY key is not 32 raw bytes or UTF-8 text
    NotText,
    /// REALITY key is not hex or base64
    NotHexOrBase64,
    /// the key decoded to this many bytes, not 32
    WrongLength(usize),
    /// REALITY shortId must be 1–8 hex bytes
    ShortIdLength,
    /// REALITY shortId must be hex
    ShortIdNotHex,
    /// REALITY shortId list is empty
    NoShortIds,
}

impl RealityKeyError {
    pub open spec fn message_spec(&self) -> Seq<char> {
        match self {
            RealityKeyError::Empty => "empty REALITY key"@,
            RealityKeyError::NotText => "REALITY key is not 32 raw bytes or UTF-8 text"@,
            RealityKeyError::NotHexOrBase64 => "REALITY key is not hex or base64"@,
            RealityKeyError::WrongLength(len) => "REALITY key decoded to "@ + decimal(*len as nat) + " bytes, expected 32"@,
            RealityKeyError::ShortIdLength => "REALITY shortId must be 1–8 hex bytes"@,
            RealityKeyError::ShortIdNotHex => "REALITY shortId must be hex"@,
            RealityKeyError::NoShortIds => "REALITY shortId list is empty"@,
        }
    }

    /// The error in words.
    pub fn message(&self) -> (message: String)
        ensures
            message@ == self.message_spec(),
    {
        match self {
            RealityKeyError::Empty => text("empty REALITY key"),
            RealityKeyError::NotText => text("REALITY key is not 32 raw bytes or UTF-8 text"),
            RealityKeyError::NotHexOrBase64 => text("REALITY key is not hex or base64"),
            RealityKeyError::WrongLength(len) => joined(&joined("REALITY key decoded to ", &string_of(&decimal_chars(*len as u64))), " bytes, expected 32"),
            RealityKeyError::ShortIdLength => text("REALITY shortId must be 1–8 hex bytes"),
            RealityKeyError::ShortIdNotHex => text("REALITY shortId must be hex"),
            RealityKeyError::NoShortIds => text("REALITY shortId list is empty"),
        }
    }
}

// ---------------------------------------------------------------------------
// Base64
// ---------------------------------------------------------------------------

/// What a character of the standard alphabet is worth.
#[verifier::opaque]
pub open spec fn b64_value(byte: u8) -> Option<nat> {
    if 65 <= byte <= 90 {
        Some((byte - 65) as nat)
    } else if 97 <= byte <= 122 {
        Some((byte - 97 + 26) as nat)
    } else if 48 <= byte <= 57 {
        Some((byte - 48 + 52) as nat)
    } else if byte == 43 {
        Some(62)
    } else if byte == 47 {
        Some(63)
    } else {
        None
    }
}

fn b64_val(byte: u8) -> (value: Option<u8>)
    ensures
        match value {
            Some(v) => b64_value(byte) == Some(v as nat) && v < 64,
            None => b64_value(byte) is None,
        },
{
    proof {
        reveal(b64_value);
    }
    if 65 <= byte && byte <= 90 {
        Some(byte - 65)
    } else if 97 <= byte && byte <= 122 {
        Some(byte - 97 + 26)
    } else if 48 <= byte && byte <= 57 {
        Some(byte - 48 + 52)
    } else if byte == 43 {
        Some(62)
    } else if byte == 47 {
        Some(63)
    } else {
        None
    }
}

/// Decodes groups of four. The first two of a group have to be there and in
/// the alphabet; a third that is not ends its group.
pub open spec fn b64_groups(s: Seq<u8>) -> Option<Seq<u8>>
    decreases s.len(),
{
    if s.len() == 0 {
        Some(Seq::empty())
    } else if s.len() == 1 || b64_value(s[0]) is None || b64_value(s[1]) is None {
        None
    } else {
        let rest = b64_groups(s.skip(if s.len() < 4 {
            s.len() as int
        } else {
            4
        }));
        match rest {
            Some(rest) => Some(b64_group(s) + rest),
            None => None,
        }
    }
}

/// The bytes of the first group.
pub open spec fn b64_group(s: Seq<u8>) -> Seq<u8> {
    let a = b64_value(s[0])->0;
    let b = b64_value(s[1])->0;
    let first = (a * 4 + b / 16) as u8;
    if s.len() > 2 && b64_value(s[2]) is Some {
        let c = b64_value(s[2])->0;
        let second = ((b % 16) * 16 + c / 4) as u8;
        if s.len() > 3 && b64_value(s[3]) is Some {
            let d = b64_value(s[3])->0;
            seq![first, second, ((c % 4) * 64 + d) as u8]
        } else {
            seq![first, second]
        }
    } else {
        seq![first]
    }
}

/// Characters of the URL alphabet stand for those of the standard one.
pub open spec fn b64_standard(c: char) -> char {
    if c == '-' {
        '+'
    } else if c == '_' {
        '/'
    } else {
        c
    }
}

/// `s` without white space and padding, in the standard alphabet.
pub open spec fn b64_clean(s: Seq<char>) -> Seq<char>
    decreases s.len(),
{
    if s.len() == 0 {
        Seq::empty()
    } else if is_space(s.last()) || s.last() == '=' {
        b64_clean(s.drop_last())
    } else {
        b64_clean(s.drop_last()).push(b64_standard(s.last()))
    }
}

pub open spec fn b64_decoded(s: Seq<char>) -> Option<Seq<u8>> {
    b64_groups(vstd::utf8::encode_utf8(b64_clean(s)))
}

fn b64_decode(text: &[char]) -> (out: Option<Vec<u8>>)
    ensures
        match out {
            Some(out) => b64_decoded(text@) == Some(out@),
            None => b64_decoded(text@) is None,
        },
{
    let mut clean: Vec<char> = Vec::new();
    let mut k: usize = 0;
    assert(b64_clean(text@.take(0)) =~= Seq::empty());
    while k < text.len()
        invariant
            k <= text.len(),
            clean@ == b64_clean(text@.take(k as int)),
        decreases text.len() - k,
    {
        assert(text@.take(k + 1).drop_last() =~= text@.take(k as int));
        assert(text@.take(k + 1).last() == text@[k as int]);
        let c = text[k];
        if !char_is_space(c) && c != '=' {
            clean.push(
                if c == '-' {
                    '+'
                } else if c == '_' {
                    '/'
                } else {
                    c
                },
            );
        }
        k = k + 1;
    }
    assert(text@.take(k as int) =~= text@);
    let bytes = utf8_bytes(&clean);
    let mut out: Vec<u8> = Vec::new();
    let mut i: usize = 0;
    assert(bytes@.skip(0) =~= bytes@);
    while i < bytes.len()
        invariant
            i <= bytes@.len(),
            match b64_groups(bytes@.skip(i as int)) {
                Some(rest) => b64_groups(bytes@) == Some(out@ + rest),
                None => b64_groups(bytes@) is None,
            },
            b64_decoded(text@) == b64_groups(bytes@),
        decreases bytes@.len() - i,
    {
        let ghost s = bytes@.skip(i as int);
        let left: usize = bytes.len() - i;
        if left < 2 {
            return None;
        }
        assert(s[0] == bytes@[i as int] && s[1] == bytes@[i + 1]);
        let a: u8 = match b64_val(bytes[i]) {
            Some(a) => a,
            None => return None,
        };
        let b: u8 = match b64_val(bytes[i + 1]) {
            Some(b) => b,
            None => return None,
        };
        let ghost before = out@;
        out.push(a * 4 + b / 16);
        let third: Option<u8> = if left > 2 {
            b64_val(bytes[i + 2])
        } else {
            None
        };
        if let Some(c) = third {
            out.push((b % 16) * 16 + c / 4);
            let fourth: Option<u8> = if left > 3 {
                b64_val(bytes[i + 3])
            } else {
                None
            };
            if let Some(d) = fourth {
                out.push((c % 4) * 64 + d);
            }
        }
        let step: usize = if left < 4 {
            left
        } else {
            4
        };
        proof {
            assert(out@ =~= before + b64_group(s));
            assert(s.skip(step as int) =~= bytes@.skip(i + step));
            if let Some(rest) = b64_groups(s.skip(step as int)) {
                assert(before + (b64_group(s) + rest) =~= out@ + rest);
            }
        }
        i = i + step;
    }
    assert(out@ + Seq::<u8>::empty() =~= out@);
    Some(out)
}

/// The character for a value, in the URL or the standard alphabet.
#[verifier::opaque]
pub open spec fn b64_char(v: nat, url: bool) -> char {
    if v < 26 {
        ((65 + v) as u32) as char
    } else if v < 52 {
        ((97 + v - 26) as u32) as char
    } else if v < 62 {
        ((48 + v - 52) as u32) as char
    } else if v == 62 {
        if url {
            '-'
        } else {
            '+'
        }
    } else {
        if url {
            '_'
        } else {
            '/'
        }
    }
}

fn b64_digit(v: u8, url: bool) -> (c: char)
    requires
        v < 64,
    ensures
        c == b64_char(v as nat, url),
{
    proof {
        reveal(b64_char);
    }
    if v < 26 {
        (65 + v) as char
    } else if v < 52 {
        (97 + (v - 26)) as char
    } else if v < 62 {
        (48 + (v - 52)) as char
    } else if v == 62 {
        if url {
            '-'
        } else {
            '+'
        }
    } else {
        if url {
            '_'
        } else {
            '/'
        }
    }
}

/// Base64 without padding.
pub open spec fn b64_text(bytes: Seq<u8>, url: bool) -> Seq<char>
    decreases bytes.len(),
{
    if bytes.len() == 0 {
        Seq::empty()
    } else {
        let b0 = bytes[0] as nat;
        if bytes.len() == 1 {
            seq![b64_char(b0 / 4, url), b64_char((b0 % 4) * 16, url)]
        } else {
            let b1 = bytes[1] as nat;
            if bytes.len() == 2 {
                seq![
                    b64_char(b0 / 4, url),
                    b64_char((b0 % 4) * 16 + b1 / 16, url),
                    b64_char((b1 % 16) * 4, url),
                ]
            } else {
                let b2 = bytes[2] as nat;
                seq![
                    b64_char(b0 / 4, url),
                    b64_char((b0 % 4) * 16 + b1 / 16, url),
                    b64_char((b1 % 16) * 4 + b2 / 64, url),
                    b64_char(b2 % 64, url),
                ] + b64_text(bytes.skip(3), url)
            }
        }
    }
}

fn b64_encode(bytes: &[u8], url: bool) -> (out: Vec<char>)
    ensures
        out@ == b64_text(bytes@, url),
{
    let mut out: Vec<char> = Vec::new();
    let mut i: usize = 0;
    assert(bytes@.skip(0) =~= bytes@);
    assert(out@ + b64_text(bytes@, url) =~= b64_text(bytes@, url));
    while i < bytes.len()
        invariant
            i <= bytes.len(),
            out@ + b64_text(bytes@.skip(i as int), url) == b64_text(bytes@, url),
        decreases bytes.len() - i,
    {
        let ghost s = bytes@.skip(i as int);
        let ghost before = out@;
        let left: usize = bytes.len() - i;
        let b0: u8 = bytes[i];
        assert(s[0] == b0);
        out.push(b64_digit(b0 / 4, url));
        if left == 1 {
            out.push(b64_digit((b0 % 4) * 16, url));
            assert(out@ =~= before + b64_text(s, url));
            return out;
        }
        let b1: u8 = bytes[i + 1];
        assert(s[1] == b1);
        out.push(b64_digit((b0 % 4) * 16 + b1 / 16, url));
        if left == 2 {
            out.push(b64_digit((b1 % 16) * 4, url));
            assert(out@ =~= before + b64_text(s, url));
            return out;
        }
        let b2: u8 = bytes[i + 2];
        assert(s[2] == b2);
        out.push(b64_digit((b1 % 16) * 4 + b2 / 64, url));
        out.push(b64_digit(b2 % 64, url));
        proof {
            assert(s.skip(3) =~= bytes@.skip(i + 3));
            assert(out@ + b64_text(s.skip(3), url) =~= before + b64_text(s, url));
        }
        i = i + 3;
    }
    assert(out@ + Seq::<char>::empty() =~= out@);
    out
}

pub fn encode_hex(bytes: &[u8]) -> (text: String)
    ensures
        text@ == hex_text(bytes@),
{
    string_of(&hex_chars(bytes))
}

pub fn encode_b64url(bytes: &[u8]) -> (text: String)
    ensures
        text@ == b64_text(bytes@, true),
{
    string_of(&b64_encode(bytes, true))
}

// ---------------------------------------------------------------------------
// Keys
// ---------------------------------------------------------------------------

/// The key in a file or a text: 32 raw bytes, 64 hexadecimal digits or base64.
pub open spec fn key_in(bytes: Seq<u8>) -> Result<Seq<u8>, RealityKeyError> {
    if bytes.len() == 32 {
        Ok(bytes)
    } else if !vstd::utf8::valid_utf8(bytes) {
        Err(RealityKeyError::NotText)
    } else {
        let text = trim(vstd::utf8::decode_utf8(bytes));
        if text.len() == 64 && all_hex(text) {
            Ok(hex_bytes(text))
        } else {
            match b64_decoded(text) {
                None => Err(RealityKeyError::NotHexOrBase64),
                Some(decoded) => if decoded.len() == 32 {
                    Ok(decoded)
                } else {
                    Err(RealityKeyError::WrongLength(decoded.len() as usize))
                },
            }
        }
    }
}

pub fn parse_32_bytes_raw(bytes: &[u8]) -> (key: Result<[u8; 32], RealityKeyError>)
    ensures
        match key {
            Ok(key) => key_in(bytes@) == Ok::<Seq<u8>, RealityKeyError>(key@),
            Err(error) => key_in(bytes@) == Err::<Seq<u8>, RealityKeyError>(error),
        },
{
    if bytes.len() == 32 {
        let key: [u8; 32] = array_at(bytes, 0);
        assert(key@ =~= bytes@);
        return Ok(key);
    }
    let text = match utf8_str(bytes) {
        Some(text) => text,
        None => return Err(RealityKeyError::NotText),
    };
    let chars = chars_of(text);
    let text = trimmed(&chars);
    if text.len() == 64 && is_all_hex(text) {
        let decoded = parse_hex(text);
        let key: [u8; 32] = array_at(&decoded, 0);
        assert(key@ =~= decoded@);
        return Ok(key);
    }
    match b64_decode(text) {
        None => Err(RealityKeyError::NotHexOrBase64),
        Some(decoded) => {
            if decoded.len() != 32 {
                return Err(RealityKeyError::WrongLength(decoded.len()));
            }
            let key: [u8; 32] = array_at(&decoded, 0);
            assert(key@ =~= decoded@);
            Ok(key)
        },
    }
}

/// The key in a text, which is no file name.
pub fn parse_32_bytes(input: &str) -> (key: Result<[u8; 32], RealityKeyError>)
    ensures
        ({
            let text = trim(input@);
            match key {
                Ok(key) => text.len() > 0 && key_in(vstd::utf8::encode_utf8(text)) == Ok::<Seq<u8>, RealityKeyError>(
                    key@,
                ),
                Err(error) => if text.len() == 0 {
                    error == RealityKeyError::Empty
                } else {
                    key_in(vstd::utf8::encode_utf8(text)) == Err::<Seq<u8>, RealityKeyError>(error)
                },
            }
        }),
{
    let chars = chars_of(input);
    let text = trimmed(&chars);
    if text.len() == 0 {
        return Err(RealityKeyError::Empty);
    }
    parse_32_bytes_raw(&utf8_bytes(text))
}

// ---------------------------------------------------------------------------
// Short ids
// ---------------------------------------------------------------------------

/// `s`, filled up with zeros to eight bytes.
pub open spec fn short_id_of(s: Seq<u8>) -> Seq<u8> {
    Seq::new(
        8,
        |i: int|
            if i < s.len() {
                s[i]
            } else {
                0u8
            },
    )
}

/// One to eight bytes in hexadecimal, `0x` before them aside.
pub open spec fn short_id_in(text: Seq<char>) -> Result<Seq<u8>, RealityKeyError> {
    let hex = trim_prefixes(trim(text), seq!['0', 'x']);
    let size = vstd::utf8::encode_utf8(hex).len();
    if size == 0 || size > 16 || size % 2 != 0 {
        Err(RealityKeyError::ShortIdLength)
    } else if !all_hex(hex) {
        Err(RealityKeyError::ShortIdNotHex)
    } else {
        Ok(short_id_of(hex_bytes(hex)))
    }
}

fn short_id(text: &[char]) -> (id: Result<[u8; 8], RealityKeyError>)
    ensures
        match id {
            Ok(id) => short_id_in(text@) == Ok::<Seq<u8>, RealityKeyError>(id@),
            Err(error) => short_id_in(text@) == Err::<Seq<u8>, RealityKeyError>(error),
        },
{
    let prefix: [char; 2] = ['0', 'x'];
    assert(prefix@ =~= seq!['0', 'x']);
    let hex = without_prefixes(trimmed(text), &prefix);
    let size: usize = utf8_bytes(hex).len();
    if size == 0 || size > 16 || size % 2 != 0 {
        return Err(RealityKeyError::ShortIdLength);
    }
    if !is_all_hex(hex) {
        return Err(RealityKeyError::ShortIdNotHex);
    }
    proof {
        lemma_hex_is_ascii(hex@);
    }
    let raw = parse_hex(hex);
    let mut id: [u8; 8] = [0u8; 8];
    let mut i: usize = 0;
    while i < raw.len()
        invariant
            i <= raw@.len() <= 8,
            forall|j: int| 0 <= j < 8 ==> #[trigger] id@[j] == (if j < i {
                raw@[j]
            } else {
                0u8
            }),
        decreases raw@.len() - i,
    {
        id[i] = raw[i];
        i = i + 1;
    }
    assert(id@ =~= short_id_of(raw@));
    Ok(id)
}

proof fn lemma_hex_is_ascii(s: Seq<char>)
    requires
        all_hex(s),
    ensures
        vstd::utf8::encode_utf8(s).len() == s.len(),
{
    assert(vstd::utf8::is_ascii_chars(s)) by {
        assert forall|i: int| 0 <= i < s.len() implies s[i] as nat <= 127 by {
            assert(crate::text::hex_value(s[i]) is Some);
        }
    }
    vstd::utf8::is_ascii_chars_encode_utf8(s);
}

pub fn parse_short_id(input: &str) -> (id: Result<[u8; 8], RealityKeyError>)
    ensures
        match id {
            Ok(id) => short_id_in(input@) == Ok::<Seq<u8>, RealityKeyError>(id@),
            Err(error) => short_id_in(input@) == Err::<Seq<u8>, RealityKeyError>(error),
        },
{
    short_id(&chars_of(input))
}

/// The short ids in pieces of a list, blank pieces left out, or what is wrong
/// with the first bad one.
pub open spec fn short_ids_in(pieces: Seq<Seq<char>>) -> Result<Seq<Seq<u8>>, RealityKeyError>
    decreases pieces.len(),
{
    if pieces.len() == 0 {
        Ok(Seq::empty())
    } else {
        match short_ids_in(pieces.drop_last()) {
            Err(error) => Err(error),
            Ok(ids) => if trim(pieces.last()).len() == 0 {
                Ok(ids)
            } else {
                match short_id_in(trim(pieces.last())) {
                    Ok(id) => Ok(ids.push(id)),
                    Err(error) => Err(error),
                }
            },
        }
    }
}

pub open spec fn id_views(ids: Seq<[u8; 8]>) -> Seq<Seq<u8>> {
    Seq::new(ids.len(), |i: int| ids[i]@)
}

/// A list of short ids, separated by commas, blanks or semicolons; at least
/// one.
pub fn parse_short_ids(input: &str) -> (ids: Result<Vec<[u8; 8]>, RealityKeyError>)
    ensures
        ({
            let all = short_ids_in(split(input@, seq![',', ' ', ';']));
            match ids {
                Ok(ids) => all == Ok::<Seq<Seq<u8>>, RealityKeyError>(id_views(ids@)) && ids@.len() > 0,
                Err(error) => {
                    ||| all == Err::<Seq<Seq<u8>>, RealityKeyError>(error)
                    ||| all == Ok::<Seq<Seq<u8>>, RealityKeyError>(Seq::empty()) && error == RealityKeyError::NoShortIds
                },
            }
        }),
{
    let seps: [char; 3] = [',', ' ', ';'];
    assert(seps@ =~= seq![',', ' ', ';']);
    let pieces = split_at(&chars_of(input), &seps);
    let ghost all = views(pieces@);
    let mut ids: Vec<[u8; 8]> = Vec::new();
    let mut i: usize = 0;
    assert(id_views(ids@) =~= Seq::empty());
    while i < pieces.len()
        invariant
            i <= pieces@.len(),
            all == views(pieces@),
            all == split(input@, seq![',', ' ', ';']),
            short_ids_in(all.take(i as int)) == Ok::<Seq<Seq<u8>>, RealityKeyError>(id_views(ids@)),
        decreases pieces@.len() - i,
    {
        proof {
            assert(all.take(i + 1).drop_last() =~= all.take(i as int));
            assert(all.take(i + 1).last() == pieces@[i as int]@);
        }
        let piece = trimmed(&pieces[i]);
        if piece.len() > 0 {
            match short_id(piece) {
                Ok(id) => {
                    let ghost before = id_views(ids@);
                    ids.push(id);
                    assert(id_views(ids@) =~= before.push(id@));
                },
                Err(error) => {
                    proof {
                        lemma_first_error(all, i + 1);
                    }
                    return Err(error);
                },
            }
        }
        i = i + 1;
    }
    assert(all.take(i as int) =~= all);
    if ids.len() == 0 {
        assert(id_views(ids@) =~= Seq::empty());
        return Err(RealityKeyError::NoShortIds);
    }
    Ok(ids)
}

proof fn lemma_first_error(pieces: Seq<Seq<char>>, n: int)
    requires
        0 <= n <= pieces.len(),
        short_ids_in(pieces.take(n)) is Err,
    ensures
        short_ids_in(pieces) == short_ids_in(pieces.take(n)),
    decreases pieces.len() - n,
{
    if n < pieces.len() {
        assert(pieces.take(n + 1).drop_last() =~= pieces.take(n));
        lemma_first_error(pieces, n + 1);
    } else {
        assert(pieces.take(n) =~= pieces);
    }
}

// ---------------------------------------------------------------------------
// Laws
// ---------------------------------------------------------------------------

/// Base64 text reads back as the bytes that it was made of.
pub proof fn law_b64_roundtrip(bytes: Seq<u8>, url: bool)
    ensures
        b64_decoded(b64_text(bytes, url)) == Some(bytes),
{
    let text = b64_text(bytes, url);
    lemma_b64_chars(bytes, url);
    lemma_clean_b64(text, url);
    let clean = b64_clean(text);
    assert(vstd::utf8::is_ascii_chars(clean)) by {
        assert forall|i: int| 0 <= i < clean.len() implies clean[i] as nat <= 127 by {
            assert(b64_ok(text[i], url));
            let v = choose|v: nat| v < 64 && text[i] == #[trigger] b64_char(v, url);
            lemma_char_value(v, url);
        }
    }
    vstd::utf8::is_ascii_chars_encode_utf8(clean);
    lemma_groups_of_text(bytes, url);
    assert(vstd::utf8::encode_utf8(clean) =~= codes(text));
}

/// A character of an alphabet.
spec fn b64_ok(c: char, url: bool) -> bool {
    exists|v: nat| v < 64 && c == #[trigger] b64_char(v, url)
}

/// The characters' codes, in the standard alphabet.
spec fn codes(text: Seq<char>) -> Seq<u8> {
    Seq::new(text.len(), |i: int| b64_standard(text[i]) as u8)
}

proof fn lemma_char_value(v: nat, url: bool)
    requires
        v < 64,
    ensures
        b64_value(b64_standard(b64_char(v, url)) as u8) == Some(v),
        b64_standard(b64_char(v, url)) as nat <= 127,
        !is_space(b64_char(v, url)),
        b64_char(v, url) != '=',
{
    reveal(b64_value);
    reveal(b64_char);
}

proof fn lemma_b64_chars(bytes: Seq<u8>, url: bool)
    ensures
        forall|i: int| 0 <= i < b64_text(bytes, url).len() ==> b64_ok(#[trigger] b64_text(bytes, url)[i], url),
    decreases bytes.len(),
{
    let text = b64_text(bytes, url);
    if bytes.len() > 2 {
        lemma_b64_chars(bytes.skip(3), url);
        let tail = b64_text(bytes.skip(3), url);
        assert forall|i: int| 0 <= i < text.len() implies b64_ok(#[trigger] text[i], url) by {
            if i >= 4 {
                assert(text[i] == tail[i - 4]);
            }
        }
    }
}

proof fn lemma_clean_b64(text: Seq<char>, url: bool)
    requires
        forall|i: int| 0 <= i < text.len() ==> b64_ok(#[trigger] text[i], url),
    ensures
        b64_clean(text) == Seq::new(text.len(), |i: int| b64_standard(text[i])),
    decreases text.len(),
{
    if text.len() == 0 {
        assert(b64_clean(text) =~= Seq::new(text.len(), |i: int| b64_standard(text[i])));
    } else {
        let before = text.drop_last();
        assert forall|i: int| 0 <= i < before.len() implies b64_ok(#[trigger] before[i], url) by {
            assert(before[i] == text[i]);
        }
        lemma_clean_b64(before, url);
        assert(b64_ok(text[text.len() - 1], url));
        let v = choose|v: nat| v < 64 && text.last() == #[trigger] b64_char(v, url);
        lemma_char_value(v, url);
        assert(b64_clean(text) =~= Seq::new(text.len(), |i: int| b64_standard(text[i])));
    }
}

/// Three bytes are four values of six bits.
proof fn lemma_six_bits(b0: nat, b1: nat, b2: nat)
    requires
        b0 < 256,
        b1 < 256,
        b2 < 256,
    ensures
        b0 / 4 < 64,
        (b0 % 4) * 16 + b1 / 16 < 64,
        (b1 % 16) * 4 + b2 / 64 < 64,
        b2 % 64 < 64,
        (b0 / 4) * 4 + ((b0 % 4) * 16 + b1 / 16) / 16 == b0,
        (((b0 % 4) * 16 + b1 / 16) % 16) * 16 + ((b1 % 16) * 4 + b2 / 64) / 4 == b1,
        (((b1 % 16) * 4 + b2 / 64) % 4) * 64 + b2 % 64 == b2,
{
    assert(((b0 % 4) * 16 + b1 / 16) / 16 == b0 % 4);
    assert(((b0 % 4) * 16 + b1 / 16) % 16 == b1 / 16);
    assert(((b1 % 16) * 4 + b2 / 64) / 4 == b1 % 16);
    assert(((b1 % 16) * 4 + b2 / 64) % 4 == b2 / 64);
}

proof fn lemma_groups_of_text(bytes: Seq<u8>, url: bool)
    ensures
        b64_groups(codes(b64_text(bytes, url))) == Some(bytes),
    decreases bytes.len(),
{
    let text = b64_text(bytes, url);
    let s = codes(text);
    if bytes.len() == 0 {
        assert(s =~= Seq::empty());
        assert(bytes =~= Seq::empty());
    } else {
        let b0 = bytes[0] as nat;
        let b1 = if bytes.len() > 1 {
            bytes[1] as nat
        } else {
            0
        };
        let b2 = if bytes.len() > 2 {
            bytes[2] as nat
        } else {
            0
        };
        lemma_six_bits(b0, b1, b2);
        let v0 = b0 / 4;
        let v1 = (b0 % 4) * 16 + b1 / 16;
        let v2 = (b1 % 16) * 4 + b2 / 64;
        let v3 = b2 % 64;
        lemma_char_value(v0, url);
        lemma_char_value(v1, url);
        lemma_char_value(v2, url);
        lemma_char_value(v3, url);
        assert(text[0] == b64_char(v0, url));
        assert(text[1] == b64_char(v1, url));
        assert(b64_value(s[0]) == Some(v0));
        assert(b64_value(s[1]) == Some(v1));
        let rest = if bytes.len() < 3 {
            Seq::empty()
        } else {
            bytes.skip(3)
        };
        if bytes.len() == 1 {
            assert(s.skip(2) =~= Seq::empty());
            assert(b64_group(s) =~= bytes);
        } else if bytes.len() == 2 {
            assert(text[2] == b64_char(v2, url));
            assert(b64_value(s[2]) == Some(v2));
            assert(s.skip(3) =~= Seq::empty());
            assert(b64_group(s) =~= bytes);
        } else {
            assert(text[2] == b64_char(v2, url));
            assert(text[3] == b64_char(v3, url));
            assert(b64_value(s[2]) == Some(v2));
            assert(b64_value(s[3]) == Some(v3));
            lemma_groups_of_text(rest, url);
            assert(text.skip(4) =~= b64_text(rest, url));
            assert(s.skip(4) =~= codes(text.skip(4)));
            assert(b64_group(s) =~= bytes.take(3));
        }
        assert(b64_group(s) + rest =~= bytes);
        assert(b64_groups(Seq::<u8>::empty()) == Some(Seq::<u8>::empty()));
    }
}

/// A key that is written down is read again, in hexadecimal and in base64,
/// with blanks around it or without; 32 bytes are a key as they are.
pub proof fn law_key_is_read(
    key: &[u8],
    hex: String,
    b64: String,
    input: &str,
    read: Result<[u8; 32], RealityKeyError>,
    raw: Result<[u8; 32], RealityKeyError>,
)
    requires
        key@.len() == 32,
        call_ensures(encode_hex, (key,), hex),
        call_ensures(encode_b64url, (key,), b64),
        call_ensures(parse_32_bytes, (input,), read),
        call_ensures(parse_32_bytes_raw, (key,), raw),
    ensures
        hex@.len() == 64,
        b64@.len() == 43,
        trim(input@) == hex@ || trim(input@) == b64@ ==> (read matches Ok(read) && read@ == key@),
        trim(input@).len() == 0 ==> read == Err::<[u8; 32], RealityKeyError>(RealityKeyError::Empty),
        raw matches Ok(raw) && raw@ == key@,
{
    crate::text::law_hex_roundtrip(key@);
    lemma_hex_is_ascii(hex@);
    lemma_written(hex@);
    assert(!is_space(hex@[0]) && !is_space(hex@.last())) by {
        assert(crate::text::hex_value(hex@[0]) is Some);
        assert(crate::text::hex_value(hex@[63]) is Some);
    }
    let text = b64@;
    lemma_b64_len(key@, true);
    lemma_b64_chars(key@, true);
    law_b64_roundtrip(key@, true);
    assert(vstd::utf8::is_ascii_chars(text)) by {
        assert forall|i: int| 0 <= i < text.len() implies text[i] as nat <= 127 by {
            assert(b64_ok(text[i], true));
            reveal(b64_char);
        }
    }
    vstd::utf8::is_ascii_chars_encode_utf8(text);
    lemma_written(text);
    assert(b64_ok(text[0], true) && b64_ok(text[42], true));
    let first = choose|v: nat| v < 64 && text[0] == #[trigger] b64_char(v, true);
    let last = choose|v: nat| v < 64 && text[42] == #[trigger] b64_char(v, true);
    lemma_char_value(first, true);
    lemma_char_value(last, true);
    assert(text[42] == text.last());
}

proof fn lemma_written(s: Seq<char>)
    ensures
        vstd::utf8::valid_utf8(vstd::utf8::encode_utf8(s)),
        vstd::utf8::decode_utf8(vstd::utf8::encode_utf8(s)) == s,
        s.len() > 0 && !is_space(s[0]) && !is_space(s.last()) ==> trim(s) == s,
{
    vstd::utf8::encode_utf8_valid_utf8(s);
    vstd::utf8::encode_utf8_decode_utf8(s);
}

proof fn lemma_b64_len(bytes: Seq<u8>, url: bool)
    ensures
        b64_text(bytes, url).len() == (4 * bytes.len() + 2) / 3,
    decreases bytes.len(),
{
    if bytes.len() > 2 {
        lemma_b64_len(bytes.skip(3), url);
    }
}

/// One to eight bytes in hexadecimal are a short id, with zeros behind them.
pub proof fn law_short_id(bytes: Seq<u8>, input: &str, id: Result<[u8; 8], RealityKeyError>, i: int)
    requires
        call_ensures(parse_short_id, (input,), id),
        trim(input@) == hex_text(bytes),
    ensures
        1 <= bytes.len() <= 8 ==> id is Ok,
        id matches Ok(id) ==> (0 <= i < bytes.len() && i < 8 ==> id@[i] == bytes[i]),
        id matches Ok(id) ==> (bytes.len() <= i < 8 ==> id@[i] == 0),
        bytes.len() == 0 || bytes.len() > 8 ==> id == Err::<[u8; 8], RealityKeyError>(RealityKeyError::ShortIdLength),
{
    crate::text::law_hex_roundtrip(bytes);
    let text = hex_text(bytes);
    lemma_hex_is_ascii(text);
    if text.len() >= 2 && text.take(2) == seq!['0', 'x'] {
        assert(text.take(2)[1] == text[1]);
        assert(crate::text::hex_value(text[1]) is Some);
        assert(false);
    }
}

/// Lists of short ids one behind the other, with a comma, a blank or a
/// semicolon between them, are one list.
pub proof fn law_short_id_lists(
    a: &str,
    first: Vec<[u8; 8]>,
    b: &str,
    second: Vec<[u8; 8]>,
    c: char,
    input: &str,
    ids: Result<Vec<[u8; 8]>, RealityKeyError>,
)
    requires
        call_ensures(parse_short_ids, (a,), Ok::<Vec<[u8; 8]>, RealityKeyError>(first)),
        call_ensures(parse_short_ids, (b,), Ok::<Vec<[u8; 8]>, RealityKeyError>(second)),
        c == ',' || c == ' ' || c == ';',
        input@ == a@.push(c) + b@,
        call_ensures(parse_short_ids, (input,), ids),
    ensures
        first@.len() > 0,
        ids matches Ok(ids) && id_views(ids@) == id_views(first@) + id_views(second@),
{
    let seps = seq![',', ' ', ';'];
    assert(seps[0] == ',' && seps[1] == ' ' && seps[2] == ';');
    assert(seps.contains(c));
    crate::text_laws::lemma_split_around(a@, c, b@, seps);
    lemma_lists(split(a@, seps), split(b@, seps));
    assert(id_views(first@).len() == first@.len());
    assert((id_views(first@) + id_views(second@)).len() > 0);
}

proof fn lemma_lists(a: Seq<Seq<char>>, b: Seq<Seq<char>>)
    requires
        short_ids_in(a) is Ok,
        short_ids_in(b) is Ok,
    ensures
        short_ids_in(a + b) == Ok::<Seq<Seq<u8>>, RealityKeyError>(short_ids_in(a)->Ok_0 + short_ids_in(b)->Ok_0),
    decreases b.len(),
{
    if b.len() == 0 {
        assert(a + b =~= a);
        assert(short_ids_in(a)->Ok_0 + short_ids_in(b)->Ok_0 =~= short_ids_in(a)->Ok_0);
    } else {
        lemma_lists(a, b.drop_last());
        assert((a + b).drop_last() =~= a + b.drop_last());
        assert((a + b).last() == b.last());
        assert(short_ids_in(a + b)->Ok_0 =~= short_ids_in(a)->Ok_0 + short_ids_in(b)->Ok_0);
    }
}

} // verus!
