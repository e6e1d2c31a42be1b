//! BACK_AGAIN_DUDE: a client asks for its session back.

use bytes::Bytes;
use vstd::prelude::*;

use super::all_good_dude::{SERVER_NONCE_SIZE, SESSION_ID_SIZE};
use super::error::FrameError;
use crate::buffer::{bytes_len, bytes_view, freeze, get_array, new_buffer, put_slice};

verus! {

pub const BACK_AGAIN_DUDE_SIZE: usize = 48;

#[derive(Debug, Clone, Copy, PartialEq, Eq)]
pub struct BackAgainDude {
    pub session_id: [u8; SESSION_ID_SIZE],
    pub resume_token: [u8; SERVER_NONCE_SIZE],
}

impl BackAgainDude {
    /// session id, resume token.
    pub open spec fn wire(self) -> Seq<u8> {
        self.session_id@ + self.resume_token@
    }

    pub fn new(session_id: [u8; SESSION_ID_SIZE], resume_token: [u8; SERVER_NONCE_SIZE]) -> (message: Self)
        ensures
            message == (BackAgainDude { session_id, resume_token }),
    {
        BackAgainDude { session_id, resume_token }
    }

    pub fn encode(&self) -> (out: Bytes)
        ensures
            bytes_view(out) == self.wire(),
            bytes_view(out).len() == BACK_AGAIN_DUDE_SIZE,
    {
        let mut buffer = new_buffer(BACK_AGAIN_DUDE_SIZE);
        put_slice(&mut buffer, &self.session_id);
        put_slice(&mut buffer, &self.resume_token);
        let out = freeze(buffer);
        assert(bytes_view(out) =~= self.wire());
        out
    }

    pub fn decode(buffer: Bytes) -> (result: Result<Self, FrameError>)
        ensures
            match result {
                Ok(message) => bytes_view(buffer).len() == BACK_AGAIN_DUDE_SIZE && message.wire() == bytes_view(buffer),
                Err(error) => bytes_view(buffer).len() != BACK_AGAIN_DUDE_SIZE && error
                    == FrameError::InvalidBackAgainDudeLength,
            },
    {
        let ghost data = bytes_view(buffer);
        let mut buffer = buffer;
        if bytes_len(&buffer) != BACK_AGAIN_DUDE_SIZE {
            return Err(FrameError::InvalidBackAgainDudeLength);
        }
        let session_id: [u8; SESSION_ID_SIZE] = get_array(&mut buffer);
        let resume_token: [u8; SERVER_NONCE_SIZE] = get_array(&mut buffer);
        let message = BackAgainDude { session_id, resume_token };
        assert(message.wire() =~= data);
        Ok(message)
    }
}

/// Decoding what was encoded gives the message back, and nothing else does.
pub proof fn law_back_again_roundtrip(a: BackAgainDude, b: BackAgainDude)
    ensures
        a.wire().len() == BACK_AGAIN_DUDE_SIZE,
        a.wire() == b.wire() ==> a == b,
{
    assert(a.wire().take(16) =~= a.session_id@ && a.wire().skip(16) =~= a.resume_token@);
    assert(b.wire().take(16) =~= b.session_id@ && b.wire().skip(16) =~= b.resume_token@);
    if a.wire() == b.wire() {
        assert(a.session_id =~= b.session_id);
        assert(a.resume_token =~= b.resume_token);
    }
}

/// The message that some bytes are the wire form of.
pub open spec fn back_again_in(data: Seq<u8>) -> BackAgainDude {
    choose|m: BackAgainDude| m.wire() == data
}

} // verus!
