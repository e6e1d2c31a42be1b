//! PONG: a session id and a ping number.

use bytes::Bytes;
use vstd::prelude::*;

use super::all_good_dude::SESSION_ID_SIZE;
use super::error::FrameError;
use crate::buffer::{bytes_len, bytes_view, freeze, get_array, get_u64, new_buffer, put_slice, put_u64};
use crate::wire::{be_bytes, lemma_be_bytes_len, lemma_be_range, lemma_bytes_of_value, lemma_value_of_bytes};

verus! {

pub const PONG_SIZE: usize = 24;

#[derive(Debug, Clone, Copy, PartialEq, Eq)]
pub struct Pong {
    pub session_id: [u8; SESSION_ID_SIZE],
    pub ping_id: u64,
}

impl Pong {
    /// session id, ping number.
    pub open spec fn wire(self) -> Seq<u8> {
        self.session_id@ + be_bytes(self.ping_id as nat, 8)
    }

    pub fn new(session_id: [u8; SESSION_ID_SIZE], ping_id: u64) -> (message: Self)
        ensures
            message == (Pong { session_id, ping_id }),
    {
        Pong { session_id, ping_id }
    }

    pub fn encode(&self) -> (out: Bytes)
        ensures
            bytes_view(out) == self.wire(),
            bytes_view(out).len() == PONG_SIZE,
    {
        let mut buffer = new_buffer(PONG_SIZE);
        proof {
            lemma_be_bytes_len(self.ping_id as nat, 8);
        }
        put_slice(&mut buffer, &self.session_id);
        put_u64(&mut buffer, self.ping_id);
        let out = freeze(buffer);
        assert(bytes_view(out) =~= self.wire());
        out
    }

    pub fn decode(buffer: Bytes) -> (result: Result<Self, FrameError>)
        ensures
            match result {
                Ok(message) => bytes_view(buffer).len() == PONG_SIZE && message.wire() == bytes_view(buffer),
                Err(error) => bytes_view(buffer).len() != PONG_SIZE && error == FrameError::InvalidPongLength,
            },
    {
        let ghost data = bytes_view(buffer);
        let mut buffer = buffer;
        if bytes_len(&buffer) != PONG_SIZE {
            return Err(FrameError::InvalidPongLength);
        }
        let session_id: [u8; SESSION_ID_SIZE] = get_array(&mut buffer);
        let ping_id: u64 = get_u64(&mut buffer);
        let message = Pong { session_id, ping_id };
        proof {
            assert(data.skip(16).take(8) =~= data.skip(16));
            lemma_bytes_of_value(data.skip(16));
            assert(message.wire() =~= data);
        }
        Ok(message)
    }
}

/// Decoding what was encoded gives the message back, and nothing else does.
pub proof fn law_pong_roundtrip(a: Pong, b: Pong)
    ensures
        a.wire().len() == PONG_SIZE,
        a.wire() == b.wire() ==> a == b,
{
    lemma_be_range();
    lemma_be_bytes_len(a.ping_id as nat, 8);
    lemma_be_bytes_len(b.ping_id as nat, 8);
    lemma_value_of_bytes(a.ping_id as nat, 8);
    lemma_value_of_bytes(b.ping_id as nat, 8);
    assert(a.wire().take(16) =~= a.session_id@);
    assert(b.wire().take(16) =~= b.session_id@);
    assert(a.wire().skip(16) =~= be_bytes(a.ping_id as nat, 8));
    assert(b.wire().skip(16) =~= be_bytes(b.ping_id as nat, 8));
    if a.wire() == b.wire() {
        assert(a.session_id =~= b.session_id);
    }
}

/// The message that some bytes are the wire form of.
pub open spec fn pong_in(data: Seq<u8>) -> Pong {
    choose|m: Pong| m.wire() == data
}

} // verus!
