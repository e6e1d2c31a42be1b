//! REKEY: a client asks for a new resume token, or a side sends one.

use bytes::Bytes;
use vstd::prelude::*;

use super::all_good_dude::{SERVER_NONCE_SIZE, SESSION_ID_SIZE};
use super::error::FrameError;
use crate::buffer::{bytes_len, bytes_view, freeze, get_array, new_buffer, put_slice};

verus! {

pub const REKEY_REQUEST_SIZE: usize = 16;

pub const REKEY_TOKEN_SIZE: usize = 48;

#[derive(Debug, Clone, Copy, PartialEq, Eq)]
pub enum Rekey {
    Request { session_id: [u8; SESSION_ID_SIZE] },
    Token { session_id: [u8; SESSION_ID_SIZE], nonce: [u8; SERVER_NONCE_SIZE] },
}

impl Rekey {
    /// session id, and in a token message the nonce.
    pub open spec fn wire(self) -> Seq<u8> {
        match self {
            Rekey::Request { session_id } => session_id@,
            Rekey::Token { session_id, nonce } => session_id@ + nonce@,
        }
    }

    pub open spec fn id(self) -> [u8; SESSION_ID_SIZE] {
        match self {
            Rekey::Request { session_id } => session_id,
            Rekey::Token { session_id, nonce } => session_id,
        }
    }

    pub fn request(session_id: [u8; SESSION_ID_SIZE]) -> (message: Self)
        ensures
            message == (Rekey::Request { session_id }),
    {
        Rekey::Request { session_id }
    }

    pub fn token(session_id: [u8; SESSION_ID_SIZE], nonce: [u8; SERVER_NONCE_SIZE]) -> (message: Self)
        ensures
            message == (Rekey::Token { session_id, nonce }),
    {
        Rekey::Token { session_id, nonce }
    }

    pub fn session_id(&self) -> (session_id: [u8; SESSION_ID_SIZE])
        ensures
            session_id == self.id(),
    {
        match *self {
            Rekey::Request { session_id } => session_id,
            Rekey::Token { session_id, nonce: _ } => session_id,
        }
    }

    pub fn encode(&self) -> (out: Bytes)
        ensures
            bytes_view(out) == self.wire(),
            bytes_view(out).len() == (if self is Request { REKEY_REQUEST_SIZE } else { REKEY_TOKEN_SIZE }),
    {
        match self {
            Rekey::Request { session_id } => {
                let mut buffer = new_buffer(REKEY_REQUEST_SIZE);
                put_slice(&mut buffer, session_id);
                let out = freeze(buffer);
                assert(bytes_view(out) =~= self.wire());
                out
            },
            Rekey::Token { session_id, nonce } => {
                let mut buffer = new_buffer(REKEY_TOKEN_SIZE);
                put_slice(&mut buffer, session_id);
                put_slice(&mut buffer, nonce);
                let out = freeze(buffer);
                assert(bytes_view(out) =~= self.wire());
                out
            },
        }
    }

    pub fn decode(buffer: Bytes) -> (result: Result<Self, FrameError>)
        ensures
            ({
                let data = bytes_view(buffer);
                match result {
                    Ok(message) => (data.len() == REKEY_REQUEST_SIZE || data.len() == REKEY_TOKEN_SIZE)
                        && message.wire() == data,
                    Err(error) => data.len() != REKEY_REQUEST_SIZE && data.len() != REKEY_TOKEN_SIZE && error
                        == FrameError::InvalidRekeyLength,
                }
            }),
    {
        let ghost data = bytes_view(buffer);
        let mut buffer = buffer;
        let len: usize = bytes_len(&buffer);
        if len == REKEY_REQUEST_SIZE {
            let session_id: [u8; SESSION_ID_SIZE] = get_array(&mut buffer);
            assert(session_id@ =~= data);
            Ok(Rekey::Request { session_id })
        } else if len == REKEY_TOKEN_SIZE {
            let session_id: [u8; SESSION_ID_SIZE] = get_array(&mut buffer);
            let nonce: [u8; SERVER_NONCE_SIZE] = get_array(&mut buffer);
            assert(session_id@ + nonce@ =~= data);
            Ok(Rekey::Token { session_id, nonce })
        } else {
            Err(FrameError::InvalidRekeyLength)
        }
    }
}

/// Decoding what was encoded gives the message back, and nothing else does.
pub proof fn law_rekey_roundtrip(a: Rekey, b: Rekey)
    ensures
        a.wire().len() == REKEY_REQUEST_SIZE || a.wire().len() == REKEY_TOKEN_SIZE,
        a.wire() == b.wire() ==> a == b,
{
    if a.wire() == b.wire() {
        assert(a.wire().take(16) =~= a.id()@);
        assert(b.wire().take(16) =~= b.id()@);
        assert(a.id() =~= b.id());
        if a is Token {
            assert(a.wire().skip(16) =~= a->nonce@);
            assert(b.wire().skip(16) =~= b->nonce@);
            assert(a->nonce =~= b->nonce);
        }
    }
}

/// The message that some bytes are the wire form of.
pub open spec fn rekey_in(data: Seq<u8>) -> Rekey {
    choose|m: Rekey| m.wire() == data
}

} // verus!
