//! ALL_GOOD_DUDE: a new session, its address and its first resume token.

use bytes::Bytes;
use vstd::prelude::*;

use super::error::FrameError;
use super::frame::PROTOCOL_VERSION;
use crate::buffer::{
    bytes_len, bytes_view, freeze, get_array, get_u16, get_u32, get_u8, new_buffer, put_slice, put_u16, put_u32,
    put_u8,
};
use crate::random::random_array;
use crate::wire::{be_bytes, lemma_be_bytes_len, lemma_be_range, lemma_bytes_of_value, lemma_value_of_bytes};

verus! {

pub const SESSION_ID_SIZE: usize = 16;

pub const SERVER_NONCE_SIZE: usize = 32;

pub const ALL_GOOD_DUDE_SIZE: usize = 59;

#[derive(Debug, Clone, Copy, PartialEq, Eq)]
pub struct AllGoodDude {
    pub protocol_version: u8,
    pub session_id: [u8; SESSION_ID_SIZE],
    pub assigned_ipv4: [u8; 4],
    pub mtu: u16,
    pub capabilities: u32,
    pub server_nonce: [u8; SERVER_NONCE_SIZE],
}

impl AllGoodDude {
    /// version, session id, address, MTU, capabilities, nonce.
    pub open spec fn wire(self) -> Seq<u8> {
        seq![self.protocol_version] + self.session_id@ + self.assigned_ipv4@ + be_bytes(self.mtu as nat, 2) + be_bytes(
            self.capabilities as nat,
            4,
        ) + self.server_nonce@
    }

    /// A message with a random session id and a random nonce.
    pub fn new(assigned_ipv4: [u8; 4], mtu: u16, capabilities: u32) -> (message: Self)
        ensures
            message.protocol_version == PROTOCOL_VERSION,
            message.assigned_ipv4 == assigned_ipv4,
            message.mtu == mtu,
            message.capabilities == capabilities,
    {
        AllGoodDude {
            protocol_version: PROTOCOL_VERSION,
            session_id: random_array(),
            assigned_ipv4,
            mtu,
            capabilities,
            server_nonce: random_array(),
        }
    }

    pub fn encode(&self) -> (out: Bytes)
        ensures
            bytes_view(out) == self.wire(),
            bytes_view(out).len() == ALL_GOOD_DUDE_SIZE,
    {
        let mut buffer = new_buffer(ALL_GOOD_DUDE_SIZE);
        proof {
            lemma_be_bytes_len(self.mtu as nat, 2);
            lemma_be_bytes_len(self.capabilities as nat, 4);
        }
        put_u8(&mut buffer, self.protocol_version);
        put_slice(&mut buffer, &self.session_id);
        put_slice(&mut buffer, &self.assigned_ipv4);
        put_u16(&mut buffer, self.mtu);
        put_u32(&mut buffer, self.capabilities);
        put_slice(&mut buffer, &self.server_nonce);
        let out = freeze(buffer);
        assert(bytes_view(out) =~= self.wire());
        out
    }

    pub fn decode(buffer: Bytes) -> (result: Result<Self, FrameError>)
        ensures
            match result {
                Ok(message) => bytes_view(buffer).len() == ALL_GOOD_DUDE_SIZE && message.wire() == bytes_view(buffer),
                Err(error) => bytes_view(buffer).len() != ALL_GOOD_DUDE_SIZE && error
                    == FrameError::InvalidAllGoodDudeLength,
            },
    {
        let ghost data = bytes_view(buffer);
        let mut buffer = buffer;
        if bytes_len(&buffer) != ALL_GOOD_DUDE_SIZE {
            return Err(FrameError::InvalidAllGoodDudeLength);
        }
        let protocol_version: u8 = get_u8(&mut buffer);
        let session_id: [u8; SESSION_ID_SIZE] = get_array(&mut buffer);
        let assigned_ipv4: [u8; 4] = get_array(&mut buffer);
        let mtu: u16 = get_u16(&mut buffer);
        let capabilities: u32 = get_u32(&mut buffer);
        let server_nonce: [u8; SERVER_NONCE_SIZE] = get_array(&mut buffer);
        let message = AllGoodDude { protocol_version, session_id, assigned_ipv4, mtu, capabilities, server_nonce };
        proof {
            assert(data.skip(1).skip(16).skip(4).take(2) =~= data.subrange(21, 23));
            assert(data.skip(1).skip(16).skip(4).skip(2).take(4) =~= data.subrange(23, 27));
            lemma_bytes_of_value(data.subrange(21, 23));
            lemma_bytes_of_value(data.subrange(23, 27));
            assert(message.wire() =~= data);
        }
        Ok(message)
    }
}

/// Decoding what was encoded gives the message back, and nothing else does.
pub proof fn law_all_good_roundtrip(a: AllGoodDude, b: AllGoodDude)
    ensures
        a.wire().len() == ALL_GOOD_DUDE_SIZE,
        a.wire() == b.wire() ==> a == b,
{
    lemma_be_range();
    lemma_all_good_fields(a);
    lemma_all_good_fields(b);
    lemma_value_of_bytes(a.mtu as nat, 2);
    lemma_value_of_bytes(b.mtu as nat, 2);
    lemma_value_of_bytes(a.capabilities as nat, 4);
    lemma_value_of_bytes(b.capabilities as nat, 4);
    if a.wire() == b.wire() {
        assert(a.session_id =~= b.session_id);
        assert(a.assigned_ipv4 =~= b.assigned_ipv4);
        assert(a.server_nonce =~= b.server_nonce);
    }
}

proof fn lemma_all_good_fields(m: AllGoodDude)
    ensures
        m.wire().len() == ALL_GOOD_DUDE_SIZE,
        m.wire()[0] == m.protocol_version,
        m.wire().subrange(1, 17) == m.session_id@,
        m.wire().subrange(17, 21) == m.assigned_ipv4@,
        m.wire().subrange(21, 23) == be_bytes(m.mtu as nat, 2),
        m.wire().subrange(23, 27) == be_bytes(m.capabilities as nat, 4),
        m.wire().subrange(27, 59) == m.server_nonce@,
{
    lemma_be_bytes_len(m.mtu as nat, 2);
    lemma_be_bytes_len(m.capabilities as nat, 4);
    assert(m.wire().subrange(1, 17) =~= m.session_id@);
    assert(m.wire().subrange(17, 21) =~= m.assigned_ipv4@);
    assert(m.wire().subrange(21, 23) =~= be_bytes(m.mtu as nat, 2));
    assert(m.wire().subrange(23, 27) =~= be_bytes(m.capabilities as nat, 4));
    assert(m.wire().subrange(27, 59) =~= m.server_nonce@);
}

/// The message that some bytes are the wire form of.
pub open spec fn all_good_in(data: Seq<u8>) -> AllGoodDude {
    choose|m: AllGoodDude| m.wire() == data
}

} // verus!
