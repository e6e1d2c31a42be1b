//! The file that a session can be resumed from, encrypted with the
//! passphrase.

use vstd::prelude::*;

use crate::auth::keys::NoRandomness;
use crate::crypto::{chacha_decrypt, chacha_encrypt, chacha_open, chacha_seal, sha256, sha256_digest};
use crate::protocol::all_good_dude::{SERVER_NONCE_SIZE, SESSION_ID_SIZE};
use crate::random::os_random_array;
use crate::wire::{array_at, same_bytes};

verus! {

/// `PAYE`.
pub const FILE_MAGIC: [u8; 4] = [80, 65, 89, 69];

pub const FILE_VERSION: u8 = 1;

pub const NONCE_SIZE: usize = 12;

/// Session id and resume token.
pub const PLAINTEXT_SIZE: usize = 48;

pub const TAG_SIZE: usize = 16;

/// Magic, version, nonce, and the encrypted content with its tag.
pub const FILE_SIZE: usize = 81;

/// `payphone-session-v1`.
pub const KEY_LABEL: [u8; 19] = [
    112, 97, 121, 112, 104, 111, 110, 101, 45, 115, 101, 115, 115, 105, 111, 110, 45, 118, 49,
];

/// What a session is resumed with.
#[derive(Debug, Clone, Copy, PartialEq, Eq)]
pub struct SavedSession {
    pub session_id: [u8; SESSION_ID_SIZE],
    pub resume_token: [u8; SERVER_NONCE_SIZE],
}

/// The file key of a passphrase.
pub open spec fn file_key(psk: Seq<char>) -> Seq<u8> {
    sha256(KEY_LABEL@ + vstd::utf8::encode_utf8(psk))
}

pub fn derive_key(psk: &str) -> (key: [u8; 32])
    ensures
        key@ == file_key(psk@),
{
    let label: [u8; 19] = KEY_LABEL;
    let mut input: Vec<u8> = Vec::new();
    input.extend_from_slice(&label);
    input.extend_from_slice(psk.as_bytes());
    assert(input@ =~= KEY_LABEL@ + vstd::utf8::encode_utf8(psk@));
    sha256_digest(&input)
}

/// An encrypted file: magic, version, nonce, and the encrypted content.
pub open spec fn file_of(key: Seq<u8>, nonce: Seq<u8>, plain: Seq<u8>) -> Seq<u8> {
    FILE_MAGIC@ + seq![FILE_VERSION] + nonce + chacha_seal(key, nonce, Seq::empty(), plain)
}

/// The content of a file. One of the content's own size is not encrypted.
pub open spec fn content_of(key: Seq<u8>, data: Seq<u8>) -> Option<Seq<u8>> {
    if data.len() == PLAINTEXT_SIZE {
        Some(data)
    } else if data.len() != FILE_SIZE || data.take(4) != FILE_MAGIC@ || data[4] != FILE_VERSION {
        None
    } else {
        chacha_open(key, data.subrange(5, 17), Seq::empty(), data.skip(17))
    }
}

/// Encrypts with a given nonce. The same key opens the file again.
pub fn seal_with(key: &[u8; 32], nonce: &[u8; NONCE_SIZE], plaintext: &[u8; PLAINTEXT_SIZE]) -> (file: Vec<u8>)
    ensures
        file@ == file_of(key@, nonce@, plaintext@),
        content_of(key@, file@) == Some(plaintext@),
{
    let empty: [u8; 0] = [];
    assert(empty@ =~= Seq::<u8>::empty());
    let magic: [u8; 4] = FILE_MAGIC;
    let ciphertext = chacha_encrypt(key, nonce, &empty, plaintext);
    let mut out: Vec<u8> = Vec::new();
    out.extend_from_slice(&magic);
    out.push(FILE_VERSION);
    out.extend_from_slice(nonce);
    out.extend_from_slice(&ciphertext);
    assert(out@ =~= file_of(key@, nonce@, plaintext@));
    assert(out@.take(4) =~= FILE_MAGIC@);
    assert(out@.subrange(5, 17) =~= nonce@);
    assert(out@.skip(17) =~= ciphertext@);
    out
}

/// Some nonce makes `file` of `plain`.
pub open spec fn sealed(key: Seq<u8>, plain: Seq<u8>, file: Seq<u8>) -> bool {
    exists|nonce: Seq<u8>| nonce.len() == NONCE_SIZE && file == #[trigger] file_of(key, nonce, plain)
}

/// Encrypts with the nonce that was drawn, where there is one.
pub fn seal_drawn(key: &[u8; 32], nonce: Option<[u8; NONCE_SIZE]>, plaintext: &[u8; PLAINTEXT_SIZE]) -> (file: Result<
    Vec<u8>,
    NoRandomness,
>)
    ensures
        match nonce {
            Some(nonce) => file matches Ok(file) && file@ == file_of(key@, nonce@, plaintext@) && content_of(
                key@,
                file@,
            ) == Some(plaintext@),
            None => file is Err,
        },
{
    match nonce {
        Some(nonce) => Ok(seal_with(key, &nonce, plaintext)),
        None => Err(NoRandomness),
    }
}

/// Encrypts with a random nonce. It fails only where the operating system has
/// no random bytes to give.
pub fn seal(key: &[u8; 32], plaintext: &[u8; PLAINTEXT_SIZE]) -> (file: Result<Vec<u8>, NoRandomness>)
    ensures
        file matches Ok(file) ==> sealed(key@, plaintext@, file@) && content_of(key@, file@) == Some(plaintext@),
{
    let nonce: Option<[u8; NONCE_SIZE]> = os_random_array();
    let file = seal_drawn(key, nonce, plaintext);
    assert(nonce matches Some(nonce) ==> nonce@.len() == NONCE_SIZE);
    file
}

pub fn open(key: &[u8; 32], data: &[u8]) -> (plaintext: Option<[u8; PLAINTEXT_SIZE]>)
    ensures
        match plaintext {
            Some(plaintext) => content_of(key@, data@) == Some(plaintext@),
            None => content_of(key@, data@) is None,
        },
{
    if data.len() == PLAINTEXT_SIZE {
        assert(data@.subrange(0, 48) =~= data@);
        return Some(array_at(data, 0));
    }
    if data.len() != FILE_SIZE {
        return None;
    }
    let magic: [u8; 4] = FILE_MAGIC;
    if !same_bytes(vstd::slice::slice_subrange(data, 0, 4), &magic) {
        assert(data@.subrange(0, 4) =~= data@.take(4));
        return None;
    }
    assert(data@.subrange(0, 4) =~= data@.take(4));
    if data[4] != FILE_VERSION {
        return None;
    }
    let nonce: [u8; NONCE_SIZE] = array_at(data, 5);
    let empty: [u8; 0] = [];
    assert(empty@ =~= Seq::<u8>::empty());
    let sealed = vstd::slice::slice_subrange(data, 17, data.len());
    assert(sealed@ =~= data@.skip(17));
    match chacha_decrypt(key, &nonce, &empty, sealed) {
        Some(plain) => {
            assert(plain@.subrange(0, 48) =~= plain@);
            Some(array_at(&plain, 0))
        },
        None => None,
    }
}

/// The session that a file holds.
pub open spec fn saved_in(key: Seq<u8>, data: Seq<u8>) -> Option<(Seq<u8>, Seq<u8>)> {
    match content_of(key, data) {
        Some(plain) => Some((plain.take(SESSION_ID_SIZE as int), plain.skip(SESSION_ID_SIZE as int))),
        None => None,
    }
}

/// The file to write so that the session can be resumed, with the nonce that
/// was drawn, where there is one.
pub fn save_drawn(
    key: &[u8; 32],
    nonce: Option<[u8; NONCE_SIZE]>,
    session_id: [u8; SESSION_ID_SIZE],
    resume_token: [u8; SERVER_NONCE_SIZE],
) -> (file: Result<Vec<u8>, NoRandomness>)
    ensures
        match nonce {
            Some(nonce) => file matches Ok(file) && file@ == file_of(key@, nonce@, session_id@ + resume_token@)
                && saved_in(key@, file@) == Some((session_id@, resume_token@)),
            None => file is Err,
        },
{
    let mut both: Vec<u8> = Vec::new();
    both.extend_from_slice(&session_id);
    both.extend_from_slice(&resume_token);
    assert(both@ =~= session_id@ + resume_token@);
    assert(both@.subrange(0, 48) =~= both@);
    let plaintext: [u8; PLAINTEXT_SIZE] = array_at(&both, 0);
    assert(both@.take(16) =~= session_id@);
    assert(both@.skip(16) =~= resume_token@);
    seal_drawn(key, nonce, &plaintext)
}

/// The file to write so that the session can be resumed, with a random nonce.
/// It fails only where the operating system has no random bytes to give.
pub fn save(key: &[u8; 32], session_id: [u8; SESSION_ID_SIZE], resume_token: [u8; SERVER_NONCE_SIZE]) -> (file: Result<
    Vec<u8>,
    NoRandomness,
>)
    ensures
        file matches Ok(file) ==> {
            &&& sealed(key@, session_id@ + resume_token@, file@)
            &&& saved_in(key@, file@) == Some((session_id@, resume_token@))
        },
{
    let nonce: Option<[u8; NONCE_SIZE]> = os_random_array();
    let file = save_drawn(key, nonce, session_id, resume_token);
    assert(nonce matches Some(nonce) ==> nonce@.len() == NONCE_SIZE);
    file
}

/// The session in a file, where the key opens it.
pub fn load(key: &[u8; 32], data: &[u8]) -> (saved: Option<SavedSession>)
    ensures
        match saved {
            Some(saved) => saved_in(key@, data@) == Some((saved.session_id@, saved.resume_token@)),
            None => saved_in(key@, data@) is None,
        },
{
    match open(key, data) {
        Some(plaintext) => {
            let session_id: [u8; SESSION_ID_SIZE] = array_at(&plaintext, 0);
            let resume_token: [u8; SERVER_NONCE_SIZE] = array_at(&plaintext, SESSION_ID_SIZE);
            assert(plaintext@.subrange(0, 16) =~= plaintext@.take(16));
            assert(plaintext@.subrange(16, 48) =~= plaintext@.skip(16));
            Some(SavedSession { session_id, resume_token })
        },
        None => None,
    }
}

/// A session that was saved is loaded again with the same passphrase: the
/// file is 81 bytes, begins with `PAYE` and version 1, and holds the nonce and
/// what the cipher makes of the session id and the token.
pub proof fn law_saved_session_is_loaded(
    psk: &str,
    key: &[u8; 32],
    nonce: [u8; NONCE_SIZE],
    id: [u8; SESSION_ID_SIZE],
    token: [u8; SERVER_NONCE_SIZE],
    file: Vec<u8>,
    data: &[u8],
    loaded: Option<SavedSession>,
)
    requires
        call_ensures(derive_key, (psk,), *key),
        call_ensures(save_drawn, (key, Some(nonce), id, token), Ok::<Vec<u8>, NoRandomness>(file)),
        data@ == file@,
        call_ensures(load, (key, data), loaded),
    ensures
        loaded == Some(SavedSession { session_id: id, resume_token: token }),
        file@ == seq![80u8, 65, 89, 69, 1] + nonce@ + chacha_seal(key@, nonce@, Seq::empty(), id@ + token@),
        key@ == sha256(
            seq![112u8, 97, 121, 112, 104, 111, 110, 101, 45, 115, 101, 115, 115, 105, 111, 110, 45, 118, 49]
                + vstd::utf8::encode_utf8(psk@),
        ),
{
    let saved = loaded->0;
    assert(saved.session_id =~= id);
    assert(saved.resume_token =~= token);
    let magic = FILE_MAGIC;
    assert(magic@ =~= seq![80u8, 65, 89, 69]);
    assert(FILE_MAGIC@ + seq![FILE_VERSION] =~= seq![80u8, 65, 89, 69, 1]);
    let label = KEY_LABEL;
    assert(label@ =~= seq![112u8, 97, 121, 112, 104, 111, 110, 101, 45, 115, 101, 115, 115, 105, 111, 110, 45, 118, 49]);
}

/// A file of 48 bytes is a session that was not encrypted; one of any other
/// length than that and 81, or with another beginning, holds none.
pub proof fn law_session_file(key: &[u8; 32], data: &[u8], loaded: Option<SavedSession>)
    requires
        call_ensures(load, (key, data), loaded),
    ensures
        data@.len() == 48 ==> (loaded matches Some(s) && s.session_id@ == data@.take(16) && s.resume_token@
            == data@.skip(16)),
        data@.len() != 48 && data@.len() != 81 ==> loaded is None,
        data@.len() == 81 && !(data@[0] == 80 && data@[1] == 65 && data@[2] == 89 && data@[3] == 69 && data@[4] == 1)
            ==> loaded is None,
        data@.len() == 81 && data@[0] == 80 && data@[1] == 65 && data@[2] == 89 && data@[3] == 69 && data@[4] == 1
            ==> (match chacha_open(key@, data@.subrange(5, 17), Seq::empty(), data@.skip(17)) {
            Some(plain) => loaded matches Some(s) && s.session_id@ == plain.take(16) && s.resume_token@ == plain.skip(
                16,
            ),
            None => loaded is None,
        }),
{
    let magic = FILE_MAGIC;
    assert(magic@ =~= seq![80u8, 65, 89, 69]);
    if data@.len() == 81 {
        let four = data@.take(4);
        assert(four[0] == data@[0] && four[1] == data@[1] && four[2] == data@[2] && four[3] == data@[3]);
        assert(data@[0] == 80 && data@[1] == 65 && data@[2] == 89 && data@[3] == 69 ==> four =~= magic@);
    }
}

} // verus!
