//! DATA: one tunnelled packet.

use bytes::Bytes;
use vstd::prelude::*;

use super::all_good_dude::SESSION_ID_SIZE;
use super::error::FrameError;
use crate::buffer::{
    bytes_len, bytes_slice, bytes_view, freeze, get_array, get_bytes, get_u64, new_buffer, put_slice, put_u64,
};
use crate::wire::{be_bytes, lemma_be_bytes_len, lemma_be_range, lemma_bytes_of_value, lemma_value_of_bytes};

verus! {

pub const DATA_HEADER_SIZE: usize = 24;

pub const MAX_DATA_PAYLOAD_SIZE: usize = 65536;

#[derive(Debug)]
pub struct Data {
    pub session_id: [u8; SESSION_ID_SIZE],
    pub packet_id: u64,
    pub payload: Bytes,
}

impl Clone for Data {
    fn clone(&self) -> (copy: Self)
        ensures
            copy.session_id == self.session_id,
            copy.packet_id == self.packet_id,
            copy.packet() == self.packet(),
    {
        Data { session_id: self.session_id, packet_id: self.packet_id, payload: self.payload.clone() }
    }
}

pub open spec fn data_fault(data: Seq<u8>) -> Option<FrameError> {
    if data.len() < DATA_HEADER_SIZE {
        Some(FrameError::InvalidDataLength)
    } else if data.len() - DATA_HEADER_SIZE > MAX_DATA_PAYLOAD_SIZE {
        Some(FrameError::DataPayloadTooLarge)
    } else {
        None
    }
}

impl Data {
    pub open spec fn packet(self) -> Seq<u8> {
        bytes_view(self.payload)
    }

    /// session id, packet number, packet.
    pub open spec fn wire(self) -> Seq<u8> {
        self.session_id@ + be_bytes(self.packet_id as nat, 8) + self.packet()
    }

    pub fn new(session_id: [u8; SESSION_ID_SIZE], packet_id: u64, payload: Bytes) -> (message: Self)
        ensures
            message == (Data { session_id, packet_id, payload }),
    {
        Data { session_id, packet_id, payload }
    }

    pub fn encode(&self) -> (out: Bytes)
        requires
            self.packet().len() + DATA_HEADER_SIZE <= isize::MAX,
        ensures
            bytes_view(out) == self.wire(),
            bytes_view(out).len() == DATA_HEADER_SIZE + self.packet().len(),
    {
        let payload_len: usize = bytes_len(&self.payload);
        let mut buffer = new_buffer(DATA_HEADER_SIZE + payload_len);
        proof {
            lemma_be_bytes_len(self.packet_id as nat, 8);
        }
        put_slice(&mut buffer, &self.session_id);
        put_u64(&mut buffer, self.packet_id);
        put_slice(&mut buffer, bytes_slice(&self.payload));
        let out = freeze(buffer);
        assert(bytes_view(out) =~= self.wire());
        out
    }

    pub fn decode(buffer: Bytes) -> (result: Result<Self, FrameError>)
        ensures
            match result {
                Ok(message) => data_fault(bytes_view(buffer)) is None && message.wire() == bytes_view(buffer),
                Err(error) => data_fault(bytes_view(buffer)) == Some(error),
            },
    {
        let ghost data = bytes_view(buffer);
        let mut buffer = buffer;
        if bytes_len(&buffer) < DATA_HEADER_SIZE {
            return Err(FrameError::InvalidDataLength);
        }
        let session_id: [u8; SESSION_ID_SIZE] = get_array(&mut buffer);
        let packet_id: u64 = get_u64(&mut buffer);
        let payload_len: usize = bytes_len(&buffer);
        if payload_len > MAX_DATA_PAYLOAD_SIZE {
            return Err(FrameError::DataPayloadTooLarge);
        }
        let payload = get_bytes(&mut buffer, payload_len);
        let message = Data { session_id, packet_id, payload };
        proof {
            assert(data.skip(16).take(8) =~= data.subrange(16, 24));
            lemma_bytes_of_value(data.subrange(16, 24));
            assert(message.packet() =~= data.skip(24));
            assert(message.wire() =~= data);
        }
        Ok(message)
    }
}

/// Decoding what was encoded gives the message back, and nothing else does:
/// the wire form decides every field.
pub proof fn law_data_roundtrip(a: Data, b: Data)
    ensures
        a.packet().len() <= MAX_DATA_PAYLOAD_SIZE ==> data_fault(a.wire()) is None,
        a.wire() == b.wire() ==> a.session_id == b.session_id && a.packet_id == b.packet_id && a.packet() == b.packet(),
{
    lemma_be_range();
    lemma_data_fields(a);
    lemma_data_fields(b);
    lemma_value_of_bytes(a.packet_id as nat, 8);
    lemma_value_of_bytes(b.packet_id as nat, 8);
    if a.wire() == b.wire() {
        assert(a.session_id =~= b.session_id);
    }
}

proof fn lemma_data_fields(m: Data)
    ensures
        m.wire().len() == DATA_HEADER_SIZE + m.packet().len(),
        m.wire().subrange(0, 16) == m.session_id@,
        m.wire().subrange(16, 24) == be_bytes(m.packet_id as nat, 8),
        m.wire().skip(24) == m.packet(),
{
    lemma_be_bytes_len(m.packet_id as nat, 8);
    assert(m.wire().subrange(0, 16) =~= m.session_id@);
    assert(m.wire().subrange(16, 24) =~= be_bytes(m.packet_id as nat, 8));
    assert(m.wire().skip(24) =~= m.packet());
}

/// The message that some bytes are the wire form of.
pub open spec fn data_in(data: Seq<u8>) -> Data {
    choose|m: Data| m.wire() == data
}

} // verus!
