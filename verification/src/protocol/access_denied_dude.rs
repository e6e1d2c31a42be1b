//! ACCESS_DENIED_DUDE: why the server turned a client away.

use bytes::Bytes;
use vstd::prelude::*;

use super::error::FrameError;
use crate::buffer::{bytes_len, bytes_view, freeze, get_u64, get_u8, new_buffer, put_u64, put_u8};
use crate::wire::{be_bytes, lemma_be_bytes_len, lemma_be_range, lemma_bytes_of_value, lemma_value_of_bytes};

verus! {

pub const ACCESS_DENIED_DUDE_SIZE: usize = 9;

#[derive(Debug, Clone, Copy, PartialEq, Eq, Structural)]
pub enum DenyReason {
    InvalidToken,
    SubscriptionExpired,
    TokenRevoked,
    SubscriptionNotActive,
    UnknownSigningKey,
    UnsupportedPlan,
    InternalAuthError,
}

impl DenyReason {
    /// The byte that stands for this reason on the wire.
    pub open spec fn code(self) -> u8 {
        match self {
            DenyReason::InvalidToken => 1,
            DenyReason::SubscriptionExpired => 2,
            DenyReason::TokenRevoked => 3,
            DenyReason::SubscriptionNotActive => 4,
            DenyReason::UnknownSigningKey => 5,
            DenyReason::UnsupportedPlan => 6,
            DenyReason::InternalAuthError => 7,
        }
    }

    pub open spec fn spelled(self) -> Seq<char> {
        match self {
            DenyReason::InvalidToken => "InvalidToken"@,
            DenyReason::SubscriptionExpired => "SubscriptionExpired"@,
            DenyReason::TokenRevoked => "TokenRevoked"@,
            DenyReason::SubscriptionNotActive => "SubscriptionNotActive"@,
            DenyReason::UnknownSigningKey => "UnknownSigningKey"@,
            DenyReason::UnsupportedPlan => "UnsupportedPlan"@,
            DenyReason::InternalAuthError => "InternalAuthError"@,
        }
    }

    /// The reason's name, as messages show it.
    pub fn name(self) -> (name: &'static str)
        ensures
            name@ == self.spelled(),
    {
        match self {
            DenyReason::InvalidToken => "InvalidToken",
            DenyReason::SubscriptionExpired => "SubscriptionExpired",
            DenyReason::TokenRevoked => "TokenRevoked",
            DenyReason::SubscriptionNotActive => "SubscriptionNotActive",
            DenyReason::UnknownSigningKey => "UnknownSigningKey",
            DenyReason::UnsupportedPlan => "UnsupportedPlan",
            DenyReason::InternalAuthError => "InternalAuthError",
        }
    }

    pub fn to_u8(self) -> (code: u8)
        ensures
            code == self.code(),
    {
        match self {
            DenyReason::InvalidToken => 1,
            DenyReason::SubscriptionExpired => 2,
            DenyReason::TokenRevoked => 3,
            DenyReason::SubscriptionNotActive => 4,
            DenyReason::UnknownSigningKey => 5,
            DenyReason::UnsupportedPlan => 6,
            DenyReason::InternalAuthError => 7,
        }
    }
}

impl TryFrom<u8> for DenyReason {
    type Error = FrameError;

    fn try_from(value: u8) -> (result: Result<Self, FrameError>) {
        match value {
            1 => Ok(DenyReason::InvalidToken),
            2 => Ok(DenyReason::SubscriptionExpired),
            3 => Ok(DenyReason::TokenRevoked),
            4 => Ok(DenyReason::SubscriptionNotActive),
            5 => Ok(DenyReason::UnknownSigningKey),
            6 => Ok(DenyReason::UnsupportedPlan),
            7 => Ok(DenyReason::InternalAuthError),
            _ => Err(FrameError::UnknownDenyReason(value)),
        }
    }
}

impl vstd::std_specs::convert::TryFromSpecImpl<u8> for DenyReason {
    open spec fn obeys_try_from_spec() -> bool {
        true
    }

    /// The reason whose code is `v`.
    open spec fn try_from_spec(v: u8) -> Result<Self, FrameError> {
        if v == 1 {
            Ok(DenyReason::InvalidToken)
        } else if v == 2 {
            Ok(DenyReason::SubscriptionExpired)
        } else if v == 3 {
            Ok(DenyReason::TokenRevoked)
        } else if v == 4 {
            Ok(DenyReason::SubscriptionNotActive)
        } else if v == 5 {
            Ok(DenyReason::UnknownSigningKey)
        } else if v == 6 {
            Ok(DenyReason::UnsupportedPlan)
        } else if v == 7 {
            Ok(DenyReason::InternalAuthError)
        } else {
            Err(FrameError::UnknownDenyReason(v))
        }
    }
}

#[derive(Debug, Clone, Copy, PartialEq, Eq, Structural)]
pub struct AccessDeniedDude {
    pub reason: DenyReason,
    pub expires_at: u64,
}

pub open spec fn access_denied_fault(data: Seq<u8>) -> Option<FrameError> {
    if data.len() != ACCESS_DENIED_DUDE_SIZE {
        Some(FrameError::InvalidAccessDeniedDudeLength)
    } else if !(1 <= data[0] <= 7) {
        Some(FrameError::UnknownDenyReason(data[0]))
    } else {
        None
    }
}

impl AccessDeniedDude {
    /// reason, expiry.
    pub open spec fn wire(self) -> Seq<u8> {
        seq![self.reason.code()] + be_bytes(self.expires_at as nat, 8)
    }

    pub fn new(reason: DenyReason, expires_at: u64) -> (message: Self)
        ensures
            message == (AccessDeniedDude { reason, expires_at }),
    {
        AccessDeniedDude { reason, expires_at }
    }

    pub fn encode(&self) -> (out: Bytes)
        ensures
            bytes_view(out) == self.wire(),
            bytes_view(out).len() == ACCESS_DENIED_DUDE_SIZE,
    {
        let mut buffer = new_buffer(ACCESS_DENIED_DUDE_SIZE);
        proof {
            lemma_be_bytes_len(self.expires_at as nat, 8);
        }
        put_u8(&mut buffer, self.reason.to_u8());
        put_u64(&mut buffer, self.expires_at);
        let out = freeze(buffer);
        assert(bytes_view(out) =~= self.wire());
        out
    }

    pub fn decode(buffer: Bytes) -> (result: Result<Self, FrameError>)
        ensures
            match result {
                Ok(message) => access_denied_fault(bytes_view(buffer)) is None && message.wire() == bytes_view(buffer),
                Err(error) => access_denied_fault(bytes_view(buffer)) == Some(error),
            },
    {
        let ghost data = bytes_view(buffer);
        let mut buffer = buffer;
        if bytes_len(&buffer) != ACCESS_DENIED_DUDE_SIZE {
            return Err(FrameError::InvalidAccessDeniedDudeLength);
        }
        let reason = match DenyReason::try_from(get_u8(&mut buffer)) {
            Ok(reason) => reason,
            Err(error) => return Err(error),
        };
        let expires_at: u64 = get_u64(&mut buffer);
        let message = AccessDeniedDude { reason, expires_at };
        proof {
            assert(data.skip(1).take(8) =~= data.skip(1));
            lemma_bytes_of_value(data.skip(1));
            assert(message.wire() =~= data);
        }
        Ok(message)
    }
}

/// Decoding what was encoded gives the message back, and nothing else does.
pub proof fn law_access_denied_roundtrip(a: AccessDeniedDude, b: AccessDeniedDude)
    ensures
        access_denied_fault(a.wire()) is None,
        a.wire() == b.wire() ==> a == b,
{
    lemma_be_range();
    lemma_be_bytes_len(a.expires_at as nat, 8);
    lemma_be_bytes_len(b.expires_at as nat, 8);
    lemma_value_of_bytes(a.expires_at as nat, 8);
    lemma_value_of_bytes(b.expires_at as nat, 8);
    assert(a.wire()[0] == a.reason.code() && b.wire()[0] == b.reason.code());
    assert(a.wire().skip(1) =~= be_bytes(a.expires_at as nat, 8));
    assert(b.wire().skip(1) =~= be_bytes(b.expires_at as nat, 8));
}

/// The message that some bytes are the wire form of.
pub open spec fn denied_in(data: Seq<u8>) -> AccessDeniedDude {
    choose|m: AccessDeniedDude| m.wire() == data
}

} // verus!
