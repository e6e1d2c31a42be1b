//! STILL_GOOD_DUDE: a resumed session and its unchanged address.

use bytes::Bytes;
use vstd::prelude::*;

use super::all_good_dude::SESSION_ID_SIZE;
use super::error::FrameError;
use crate::buffer::{
    bytes_len, bytes_view, freeze, get_array, get_u16, get_u32, new_buffer, put_slice, put_u16, put_u32,
};
use crate::wire::{be_bytes, lemma_be_bytes_len, lemma_be_range, lemma_bytes_of_value, lemma_value_of_bytes};

verus! {

pub const STILL_GOOD_DUDE_SIZE: usize = 26;

#[derive(Debug, Clone, Copy, PartialEq, Eq)]
pub struct StillGoodDude {
    pub session_id: [u8; SESSION_ID_SIZE],
    pub assigned_ipv4: [u8; 4],
    pub mtu: u16,
    pub capabilities: u32,
}

impl StillGoodDude {
    /// session id, address, MTU, capabilities.
    pub open spec fn wire(self) -> Seq<u8> {
        self.session_id@ + self.assigned_ipv4@ + be_bytes(self.mtu as nat, 2) + be_bytes(self.capabilities as nat, 4)
    }

    pub fn new(session_id: [u8; SESSION_ID_SIZE], assigned_ipv4: [u8; 4], mtu: u16, capabilities: u32) -> (message:
        Self)
        ensures
            message == (StillGoodDude { session_id, assigned_ipv4, mtu, capabilities }),
    {
        StillGoodDude { session_id, assigned_ipv4, mtu, capabilities }
    }

    pub fn encode(&self) -> (out: Bytes)
        ensures
            bytes_view(out) == self.wire(),
            bytes_view(out).len() == STILL_GOOD_DUDE_SIZE,
    {
        let mut buffer = new_buffer(STILL_GOOD_DUDE_SIZE);
        proof {
            lemma_be_bytes_len(self.mtu as nat, 2);
            lemma_be_bytes_len(self.capabilities as nat, 4);
        }
        put_slice(&mut buffer, &self.session_id);
        put_slice(&mut buffer, &self.assigned_ipv4);
        put_u16(&mut buffer, self.mtu);
        put_u32(&mut buffer, self.capabilities);
        let out = freeze(buffer);
        assert(bytes_view(out) =~= self.wire());
        out
    }

    pub fn decode(buffer: Bytes) -> (result: Result<Self, FrameError>)
        ensures
            match result {
                Ok(message) => bytes_view(buffer).len() == STILL_GOOD_DUDE_SIZE && message.wire() == bytes_view(buffer),
                Err(error) => bytes_view(buffer).len() != STILL_GOOD_DUDE_SIZE && error
                    == FrameError::InvalidStillGoodDudeLength,
            },
    {
        let ghost data = bytes_view(buffer);
        let mut buffer = buffer;
        if bytes_len(&buffer) != STILL_GOOD_DUDE_SIZE {
            return Err(FrameError::InvalidStillGoodDudeLength);
        }
        let session_id: [u8; SESSION_ID_SIZE] = get_array(&mut buffer);
        let assigned_ipv4: [u8; 4] = get_array(&mut buffer);
        let mtu: u16 = get_u16(&mut buffer);
        let capabilities: u32 = get_u32(&mut buffer);
        let message = StillGoodDude { session_id, assigned_ipv4, mtu, capabilities };
        proof {
            assert(data.skip(16).skip(4).take(2) =~= data.subrange(20, 22));
            assert(data.skip(16).skip(4).skip(2).take(4) =~= data.subrange(22, 26));
            lemma_bytes_of_value(data.subrange(20, 22));
            lemma_bytes_of_value(data.subrange(22, 26));
            assert(message.wire() =~= data);
        }
        Ok(message)
    }
}

/// Decoding what was encoded gives the message back, and nothing else does.
pub proof fn law_still_good_roundtrip(a: StillGoodDude, b: StillGoodDude)
    ensures
        a.wire().len() == STILL_GOOD_DUDE_SIZE,
        a.wire() == b.wire() ==> a == b,
{
    lemma_be_range();
    lemma_still_good_fields(a);
    lemma_still_good_fields(b);
    lemma_value_of_bytes(a.mtu as nat, 2);
    lemma_value_of_bytes(b.mtu as nat, 2);
    lemma_value_of_bytes(a.capabilities as nat, 4);
    lemma_value_of_bytes(b.capabilities as nat, 4);
    if a.wire() == b.wire() {
        assert(a.session_id =~= b.session_id);
        assert(a.assigned_ipv4 =~= b.assigned_ipv4);
    }
}

proof fn lemma_still_good_fields(m: StillGoodDude)
    ensures
        m.wire().len() == STILL_GOOD_DUDE_SIZE,
        m.wire().subrange(0, 16) == m.session_id@,
        m.wire().subrange(16, 20) == m.assigned_ipv4@,
        m.wire().subrange(20, 22) == be_bytes(m.mtu as nat, 2),
        m.wire().subrange(22, 26) == be_bytes(m.capabilities as nat, 4),
{
    lemma_be_bytes_len(m.mtu as nat, 2);
    lemma_be_bytes_len(m.capabilities as nat, 4);
    assert(m.wire().subrange(0, 16) =~= m.session_id@);
    assert(m.wire().subrange(16, 20) =~= m.assigned_ipv4@);
    assert(m.wire().subrange(20, 22) =~= be_bytes(m.mtu as nat, 2));
    assert(m.wire().subrange(22, 26) =~= be_bytes(m.capabilities as nat, 4));
}

/// The message that some bytes are the wire form of.
pub open spec fn still_good_in(data: Seq<u8>) -> StillGoodDude {
    choose|m: StillGoodDude| m.wire() == data
}

} // verus!
