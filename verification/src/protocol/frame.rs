//! The 16-byte frame header and the payload behind it.

use bytes::Bytes;
use vstd::prelude::*;

use super::error::FrameError;
use crate::buffer::{
    bytes_from_vec, bytes_len, bytes_slice, bytes_view, freeze, get_bytes, get_u16, get_u32, get_u64, get_u8,
    new_buffer, put_slice, put_u16, put_u32, put_u64, put_u8,
};
use crate::wire::{
    be_bytes, be_value, lemma_be_bytes_len, lemma_be_range, lemma_bytes_of_value, lemma_low_u32, lemma_value_of_bytes,
    read_u32,
};

verus! {

pub const PROTOCOL_VERSION: u8 = 1;

/// UDP port of the QUIC endpoint.
pub const DEFAULT_PORT: u16 = 40404;

/// TCP port of the HTTPS front.
pub const DEFAULT_TCP_PORT: u16 = 40443;

pub const HEADER_SIZE: usize = 16;

pub const MAX_PAYLOAD_SIZE: usize = 65536;

#[derive(Debug, Clone, Copy, PartialEq, Eq, Structural)]
pub enum FrameType {
    Data,
    WhatsUpDude,
    AllGoodDude,
    Ping,
    Pong,
    Rekey,
    Close,
    BackAgainDude,
    StillGoodDude,
    AccessDeniedDude,
}

impl FrameType {
    /// The byte that stands for this type on the wire.
    pub open spec fn code(self) -> u8 {
        match self {
            FrameType::Data => 1,
            FrameType::WhatsUpDude => 2,
            FrameType::AllGoodDude => 3,
            FrameType::Ping => 4,
            FrameType::Pong => 5,
            FrameType::Rekey => 6,
            FrameType::Close => 7,
            FrameType::BackAgainDude => 8,
            FrameType::StillGoodDude => 9,
            FrameType::AccessDeniedDude => 10,
        }
    }

    pub open spec fn spelled(self) -> Seq<char> {
        match self {
            FrameType::Data => "Data"@,
            FrameType::WhatsUpDude => "WhatsUpDude"@,
            FrameType::AllGoodDude => "AllGoodDude"@,
            FrameType::Ping => "Ping"@,
            FrameType::Pong => "Pong"@,
            FrameType::Rekey => "Rekey"@,
            FrameType::Close => "Close"@,
            FrameType::BackAgainDude => "BackAgainDude"@,
            FrameType::StillGoodDude => "StillGoodDude"@,
            FrameType::AccessDeniedDude => "AccessDeniedDude"@,
        }
    }

    /// The type's name, as messages show it.
    pub fn name(self) -> (name: &'static str)
        ensures
            name@ == self.spelled(),
    {
        match self {
            FrameType::Data => "Data",
            FrameType::WhatsUpDude => "WhatsUpDude",
            FrameType::AllGoodDude => "AllGoodDude",
            FrameType::Ping => "Ping",
            FrameType::Pong => "Pong",
            FrameType::Rekey => "Rekey",
            FrameType::Close => "Close",
            FrameType::BackAgainDude => "BackAgainDude",
            FrameType::StillGoodDude => "StillGoodDude",
            FrameType::AccessDeniedDude => "AccessDeniedDude",
        }
    }

    pub fn to_u8(self) -> (code: u8)
        ensures
            code == self.code(),
    {
        match self {
            FrameType::Data => 1,
            FrameType::WhatsUpDude => 2,
            FrameType::AllGoodDude => 3,
            FrameType::Ping => 4,
            FrameType::Pong => 5,
            FrameType::Rekey => 6,
            FrameType::Close => 7,
            FrameType::BackAgainDude => 8,
            FrameType::StillGoodDude => 9,
            FrameType::AccessDeniedDude => 10,
        }
    }
}

impl TryFrom<u8> for FrameType {
    type Error = FrameError;

    fn try_from(value: u8) -> (result: Result<Self, FrameError>) {
        match value {
            1 => Ok(FrameType::Data),
            2 => Ok(FrameType::WhatsUpDude),
            3 => Ok(FrameType::AllGoodDude),
            4 => Ok(FrameType::Ping),
            5 => Ok(FrameType::Pong),
            6 => Ok(FrameType::Rekey),
            7 => Ok(FrameType::Close),
            8 => Ok(FrameType::BackAgainDude),
            9 => Ok(FrameType::StillGoodDude),
            10 => Ok(FrameType::AccessDeniedDude),
            _ => Err(FrameError::UnknownFrameType(value)),
        }
    }
}

impl vstd::std_specs::convert::TryFromSpecImpl<u8> for FrameType {
    open spec fn obeys_try_from_spec() -> bool {
        true
    }

    /// The type whose code is `v`.
    open spec fn try_from_spec(v: u8) -> Result<Self, FrameError> {
        if v == 1 {
            Ok(FrameType::Data)
        } else if v == 2 {
            Ok(FrameType::WhatsUpDude)
        } else if v == 3 {
            Ok(FrameType::AllGoodDude)
        } else if v == 4 {
            Ok(FrameType::Ping)
        } else if v == 5 {
            Ok(FrameType::Pong)
        } else if v == 6 {
            Ok(FrameType::Rekey)
        } else if v == 7 {
            Ok(FrameType::Close)
        } else if v == 8 {
            Ok(FrameType::BackAgainDude)
        } else if v == 9 {
            Ok(FrameType::StillGoodDude)
        } else if v == 10 {
            Ok(FrameType::AccessDeniedDude)
        } else {
            Err(FrameError::UnknownFrameType(v))
        }
    }
}

#[derive(Debug)]
pub struct Frame {
    pub version: u8,
    pub frame_type: FrameType,
    pub flags: u16,
    pub sequence: u64,
    pub payload: Bytes,
}

impl Clone for Frame {
    fn clone(&self) -> (copy: Self)
        ensures
            copy.wire() == self.wire(),
            copy.version == self.version,
            copy.frame_type == self.frame_type,
            copy.flags == self.flags,
            copy.sequence == self.sequence,
            bytes_view(copy.payload) == bytes_view(self.payload),
    {
        Frame {
            version: self.version,
            frame_type: self.frame_type,
            flags: self.flags,
            sequence: self.sequence,
            payload: self.payload.clone(),
        }
    }
}

/// The frame that some bytes stand for, or what is wrong with them. The first
/// fault counts: size, version, type, length field, payload limit.
pub open spec fn frame_fault(data: Seq<u8>) -> Option<FrameError> {
    if data.len() < HEADER_SIZE {
        Some(FrameError::TooSmall)
    } else if data[0] != PROTOCOL_VERSION {
        Some(FrameError::UnsupportedVersion(data[0]))
    } else if !(1 <= data[1] <= 10) {
        Some(FrameError::UnknownFrameType(data[1]))
    } else if be_value(data.subrange(4, 8)) != data.len() - HEADER_SIZE {
        Some(FrameError::InvalidPayloadLength)
    } else if data.len() - HEADER_SIZE > MAX_PAYLOAD_SIZE {
        Some(FrameError::PayloadTooLarge)
    } else {
        None
    }
}

/// What the first 16 bytes say is wrong, before the payload is there.
pub open spec fn header_fault(header: Seq<u8>) -> Option<FrameError> {
    if header[0] != PROTOCOL_VERSION {
        Some(FrameError::UnsupportedVersion(header[0]))
    } else if !(1 <= header[1] <= 10) {
        Some(FrameError::UnknownFrameType(header[1]))
    } else if be_value(header.subrange(4, 8)) > MAX_PAYLOAD_SIZE {
        Some(FrameError::PayloadTooLarge)
    } else {
        None
    }
}

impl Frame {
    pub open spec fn data(self) -> Seq<u8> {
        bytes_view(self.payload)
    }

    /// version, type, flags, payload length, sequence, payload.
    pub open spec fn wire(self) -> Seq<u8> {
        seq![self.version, self.frame_type.code()] + be_bytes(self.flags as nat, 2) + be_bytes(self.data().len(), 4)
            + be_bytes(self.sequence as nat, 8) + self.data()
    }

    pub fn encode(&self) -> (out: Bytes)
        requires
            self.data().len() + HEADER_SIZE <= isize::MAX,
        ensures
            bytes_view(out) == self.wire(),
    {
        let payload_len: usize = bytes_len(&self.payload);
        let mut buffer = new_buffer(HEADER_SIZE + payload_len);
        proof {
            lemma_be_bytes_len(self.flags as nat, 2);
            lemma_be_bytes_len(self.data().len(), 4);
            lemma_be_bytes_len(self.sequence as nat, 8);
            lemma_low_u32(payload_len);
        }
        put_u8(&mut buffer, self.version);
        put_u8(&mut buffer, self.frame_type.to_u8());
        put_u16(&mut buffer, self.flags);
        put_u32(&mut buffer, payload_len as u32);
        put_u64(&mut buffer, self.sequence);
        put_slice(&mut buffer, bytes_slice(&self.payload));
        let out = freeze(buffer);
        assert(bytes_view(out) =~= self.wire());
        out
    }

    pub fn decode(buffer: Bytes) -> (result: Result<Self, FrameError>)
        ensures
            match result {
                Ok(frame) => frame_fault(bytes_view(buffer)) is None && frame.wire() == bytes_view(buffer),
                Err(error) => frame_fault(bytes_view(buffer)) == Some(error),
            },
    {
        let ghost data = bytes_view(buffer);
        let mut buffer = buffer;
        if bytes_len(&buffer) < HEADER_SIZE {
            return Err(FrameError::TooSmall);
        }
        let version: u8 = get_u8(&mut buffer);
        if version != PROTOCOL_VERSION {
            return Err(FrameError::UnsupportedVersion(version));
        }
        let frame_type_byte: u8 = get_u8(&mut buffer);
        assert(frame_type_byte == data[1]);
        let frame_type = match FrameType::try_from(frame_type_byte) {
            Ok(frame_type) => frame_type,
            Err(error) => return Err(error),
        };
        let flags: u16 = get_u16(&mut buffer);
        let payload_len: usize = get_u32(&mut buffer) as usize;
        let sequence: u64 = get_u64(&mut buffer);
        assert(bytes_view(buffer) =~= data.skip(16));
        assert(data.skip(1).skip(1).skip(2).take(4) =~= data.subrange(4, 8));
        if payload_len != bytes_len(&buffer) {
            return Err(FrameError::InvalidPayloadLength);
        }
        if payload_len > MAX_PAYLOAD_SIZE {
            return Err(FrameError::PayloadTooLarge);
        }
        let payload = get_bytes(&mut buffer, payload_len);
        let frame = Frame { version, frame_type, flags, sequence, payload };
        proof {
            assert(data.skip(1).skip(1).take(2) =~= data.subrange(2, 4));
            assert(data.skip(1).skip(1).skip(2).skip(4).take(8) =~= data.subrange(8, 16));
            lemma_bytes_of_value(data.subrange(2, 4));
            lemma_bytes_of_value(data.subrange(4, 8));
            lemma_bytes_of_value(data.subrange(8, 16));
            assert(frame.data() =~= data.skip(16));
            assert(frame.wire() =~= data);
        }
        Ok(frame)
    }

    pub fn decode_slice(data: &[u8]) -> (result: Result<Self, FrameError>)
        ensures
            match result {
                Ok(frame) => frame_fault(data@) is None && frame.wire() == data@,
                Err(error) => frame_fault(data@) == Some(error),
            },
    {
        Self::decode(bytes_from_vec(vstd::slice::slice_to_vec(data)))
    }

    /// How many payload bytes follow this header on a stream.
    pub fn payload_len_from_header(header: &[u8; 16]) -> (result: Result<usize, FrameError>)
        ensures
            match result {
                Ok(len) => header_fault(header@) is None && len == be_value(header@.subrange(4, 8)),
                Err(error) => header_fault(header@) == Some(error),
            },
    {
        if header[0] != PROTOCOL_VERSION {
            return Err(FrameError::UnsupportedVersion(header[0]));
        }
        if let Err(error) = FrameType::try_from(header[1]) {
            return Err(error);
        }
        let len: usize = read_u32(header, 4) as usize;
        if len > MAX_PAYLOAD_SIZE {
            return Err(FrameError::PayloadTooLarge);
        }
        Ok(len)
    }
}

/// Decoding what was encoded gives the frame back, and nothing else does: the
/// wire form decides every field.
pub proof fn law_frame_roundtrip(a: Frame, b: Frame)
    ensures
        a.version == PROTOCOL_VERSION && a.data().len() <= MAX_PAYLOAD_SIZE ==> frame_fault(a.wire()) is None,
        a.wire() == b.wire() ==> {
            &&& a.version == b.version
            &&& a.frame_type == b.frame_type
            &&& a.flags == b.flags
            &&& a.sequence == b.sequence
            &&& a.data() == b.data()
        },
{
    lemma_be_range();
    lemma_frame_fields(a);
    lemma_frame_fields(b);
    lemma_value_of_bytes(a.flags as nat, 2);
    lemma_value_of_bytes(b.flags as nat, 2);
    lemma_value_of_bytes(a.sequence as nat, 8);
    lemma_value_of_bytes(b.sequence as nat, 8);
    if a.data().len() <= MAX_PAYLOAD_SIZE {
        lemma_value_of_bytes(a.data().len(), 4);
    }
}

/// What a frame's header says is wrong is what decoding the whole frame says.
pub proof fn law_header_agrees(data: Seq<u8>)
    requires
        data.len() >= HEADER_SIZE,
        be_value(data.subrange(4, 8)) == data.len() - HEADER_SIZE,
    ensures
        header_fault(data.take(16)) == frame_fault(data),
{
    assert(data.take(16).subrange(4, 8) =~= data.subrange(4, 8));
}

proof fn lemma_frame_fields(f: Frame)
    ensures
        f.wire().len() == HEADER_SIZE + f.data().len(),
        f.wire()[0] == f.version,
        f.wire()[1] == f.frame_type.code(),
        f.wire().subrange(2, 4) == be_bytes(f.flags as nat, 2),
        f.wire().subrange(4, 8) == be_bytes(f.data().len(), 4),
        f.wire().subrange(8, 16) == be_bytes(f.sequence as nat, 8),
        f.wire().skip(16) == f.data(),
{
    lemma_be_bytes_len(f.flags as nat, 2);
    lemma_be_bytes_len(f.data().len(), 4);
    lemma_be_bytes_len(f.sequence as nat, 8);
    assert(f.wire().subrange(2, 4) =~= be_bytes(f.flags as nat, 2));
    assert(f.wire().subrange(4, 8) =~= be_bytes(f.data().len(), 4));
    assert(f.wire().subrange(8, 16) =~= be_bytes(f.sequence as nat, 8));
    assert(f.wire().skip(16) =~= f.data());
}

/// A frame of this version without flags.
pub open spec fn frame_wire(frame_type: FrameType, sequence: u64, payload: Seq<u8>) -> Seq<u8> {
    seq![PROTOCOL_VERSION, frame_type.code()] + be_bytes(0, 2) + be_bytes(payload.len(), 4) + be_bytes(
        sequence as nat,
        8,
    ) + payload
}

/// Encodes such a frame.
pub fn plain_frame(frame_type: FrameType, sequence: u64, payload: Bytes) -> (out: Bytes)
    requires
        bytes_view(payload).len() + HEADER_SIZE <= isize::MAX,
    ensures
        bytes_view(out) == frame_wire(frame_type, sequence, bytes_view(payload)),
{
    let frame = Frame { version: PROTOCOL_VERSION, frame_type, flags: 0, sequence, payload };
    frame.encode()
}

/// The number after `sequence`; after the last one comes zero.
pub open spec fn next(sequence: u64) -> u64 {
    if sequence == u64::MAX {
        0
    } else {
        (sequence + 1) as u64
    }
}

pub fn next_sequence(sequence: u64) -> (after: u64)
    ensures
        after == next(sequence),
{
    sequence.wrapping_add(1)
}

} // verus!
