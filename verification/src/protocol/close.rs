//! CLOSE: one side ends a session.

use bytes::Bytes;
use vstd::prelude::*;

use super::all_good_dude::SESSION_ID_SIZE;
use super::error::FrameError;
use crate::buffer::{bytes_len, bytes_view, freeze, get_array, get_u8, new_buffer, put_slice, put_u8};

verus! {

pub const CLOSE_SIZE: usize = 17;

#[derive(Debug, Clone, Copy, PartialEq, Eq, Structural)]
pub enum CloseReason {
    ClientShutdown,
    ServerShutdown,
    Replaced,
}

impl CloseReason {
    /// The byte that stands for this reason on the wire.
    pub open spec fn code(self) -> u8 {
        match self {
            CloseReason::ClientShutdown => 0,
            CloseReason::ServerShutdown => 1,
            CloseReason::Replaced => 2,
        }
    }

    pub fn to_u8(self) -> (code: u8)
        ensures
            code == self.code(),
    {
        match self {
            CloseReason::ClientShutdown => 0,
            CloseReason::ServerShutdown => 1,
            CloseReason::Replaced => 2,
        }
    }
}

impl TryFrom<u8> for CloseReason {
    type Error = FrameError;

    fn try_from(value: u8) -> (result: Result<Self, FrameError>) {
        match value {
            0 => Ok(CloseReason::ClientShutdown),
            1 => Ok(CloseReason::ServerShutdown),
            2 => Ok(CloseReason::Replaced),
            _ => Err(FrameError::UnknownCloseReason(value)),
        }
    }
}

impl vstd::std_specs::convert::TryFromSpecImpl<u8> for CloseReason {
    open spec fn obeys_try_from_spec() -> bool {
        true
    }

    /// The reason whose code is `v`.
    open spec fn try_from_spec(v: u8) -> Result<Self, FrameError> {
        if v == 0 {
            Ok(CloseReason::ClientShutdown)
        } else if v == 1 {
            Ok(CloseReason::ServerShutdown)
        } else if v == 2 {
            Ok(CloseReason::Replaced)
        } else {
            Err(FrameError::UnknownCloseReason(v))
        }
    }
}

#[derive(Debug, Clone, Copy, PartialEq, Eq)]
pub struct Close {
    pub session_id: [u8; SESSION_ID_SIZE],
    pub reason: CloseReason,
}

pub open spec fn close_fault(data: Seq<u8>) -> Option<FrameError> {
    if data.len() != CLOSE_SIZE {
        Some(FrameError::InvalidCloseLength)
    } else if data[16] > 2 {
        Some(FrameError::UnknownCloseReason(data[16]))
    } else {
        None
    }
}

impl Close {
    /// session id, reason.
    pub open spec fn wire(self) -> Seq<u8> {
        self.session_id@.push(self.reason.code())
    }

    pub fn new(session_id: [u8; SESSION_ID_SIZE], reason: CloseReason) -> (message: Self)
        ensures
            message == (Close { session_id, reason }),
    {
        Close { session_id, reason }
    }

    pub fn encode(&self) -> (out: Bytes)
        ensures
            bytes_view(out) == self.wire(),
            bytes_view(out).len() == CLOSE_SIZE,
    {
        let mut buffer = new_buffer(CLOSE_SIZE);
        put_slice(&mut buffer, &self.session_id);
        put_u8(&mut buffer, self.reason.to_u8());
        let out = freeze(buffer);
        assert(bytes_view(out) =~= self.wire());
        out
    }

    pub fn decode(buffer: Bytes) -> (result: Result<Self, FrameError>)
        ensures
            match result {
                Ok(message) => close_fault(bytes_view(buffer)) is None && message.wire() == bytes_view(buffer),
                Err(error) => close_fault(bytes_view(buffer)) == Some(error),
            },
    {
        let ghost data = bytes_view(buffer);
        let mut buffer = buffer;
        if bytes_len(&buffer) != CLOSE_SIZE {
            return Err(FrameError::InvalidCloseLength);
        }
        let session_id: [u8; SESSION_ID_SIZE] = get_array(&mut buffer);
        assert(bytes_view(buffer)[0] == data[16]);
        let reason = match CloseReason::try_from(get_u8(&mut buffer)) {
            Ok(reason) => reason,
            Err(error) => return Err(error),
        };
        let message = Close { session_id, reason };
        assert(message.wire() =~= data);
        Ok(message)
    }
}

/// Decoding what was encoded gives the message back, and nothing else does.
pub proof fn law_close_roundtrip(a: Close, b: Close)
    ensures
        close_fault(a.wire()) is None,
        a.wire() == b.wire() ==> a == b,
{
    assert(a.wire().take(16) =~= a.session_id@ && a.wire()[16] == a.reason.code());
    assert(b.wire().take(16) =~= b.session_id@ && b.wire()[16] == b.reason.code());
    if a.wire() == b.wire() {
        assert(a.session_id =~= b.session_id);
    }
}

/// The message that some bytes are the wire form of.
pub open spec fn close_in(data: Seq<u8>) -> Close {
    choose|m: Close| m.wire() == data
}

} // verus!
