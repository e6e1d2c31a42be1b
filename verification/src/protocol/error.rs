//! What can be wrong with a frame or a message.

use vstd::prelude::*;

use crate::text::{decimal, decimal_chars, joined, string_of, text};

verus! {

#[derive(Debug, Clone, Copy, PartialEq, Eq, Structural)]
pub enum FrameError {
    TooSmall,
    UnknownFrameType(u8),
    PayloadTooLarge,
    InvalidPayloadLength,
    UnsupportedVersion(u8),
    InvalidWhatsUpDudeLength,
    InvalidAllGoodDudeLength,
    InvalidBackAgainDudeLength,
    InvalidStillGoodDudeLength,
    InvalidDataLength,
    DataPayloadTooLarge,
    InvalidPingLength,
    InvalidPongLength,
    MissingAuthToken,
    InvalidAuthTokenLength,
    AuthTokenTooLarge,
    InvalidAccessDeniedDudeLength,
    UnknownDenyReason(u8),
    InvalidCloseLength,
    UnknownCloseReason(u8),
    InvalidRekeyLength,
}

impl FrameError {
    pub open spec fn message_spec(&self) -> Seq<char> {
        match self {
            FrameError::TooSmall => "frame is too small"@,
            FrameError::UnknownFrameType(code) => "unknown frame type: "@ + decimal(*code as nat),
            FrameError::PayloadTooLarge => "payload is too large"@,
            FrameError::InvalidPayloadLength => "invalid payload length"@,
            FrameError::UnsupportedVersion(version) => "unsupported PAYPHONE version: "@ + decimal(*version as nat),
            FrameError::InvalidWhatsUpDudeLength => "invalid WhatsUpDude length"@,
            FrameError::InvalidAllGoodDudeLength => "invalid AllGoodDude length"@,
            FrameError::InvalidBackAgainDudeLength => "invalid BackAgainDude length"@,
            FrameError::InvalidStillGoodDudeLength => "invalid StillGoodDude length"@,
            FrameError::InvalidDataLength => "invalid DATA length"@,
            FrameError::DataPayloadTooLarge => "DATA payload is too large"@,
            FrameError::InvalidPingLength => "invalid PING length"@,
            FrameError::InvalidPongLength => "invalid PONG length"@,
            FrameError::MissingAuthToken => "PAYPHONE auth token is missing"@,
            FrameError::InvalidAuthTokenLength => "invalid PAYPHONE auth token length"@,
            FrameError::AuthTokenTooLarge => "PAYPHONE auth token is too large"@,
            FrameError::InvalidAccessDeniedDudeLength => "invalid AccessDeniedDude length"@,
            FrameError::UnknownDenyReason(code) => "unknown access deny reason: "@ + decimal(*code as nat),
            FrameError::InvalidCloseLength => "invalid CLOSE length"@,
            FrameError::UnknownCloseReason(code) => "unknown close reason: "@ + decimal(*code as nat),
            FrameError::InvalidRekeyLength => "invalid REKEY length"@,
        }
    }

    /// The error in words.
    pub fn message(&self) -> (message: String)
        ensures
            message@ == self.message_spec(),
    {
        match self {
            FrameError::TooSmall => text("frame is too small"),
            FrameError::UnknownFrameType(code) => joined("unknown frame type: ", &string_of(&decimal_chars(*code as u64))),
            FrameError::PayloadTooLarge => text("payload is too large"),
            FrameError::InvalidPayloadLength => text("invalid payload length"),
            FrameError::UnsupportedVersion(version) => joined("unsupported PAYPHONE version: ", &string_of(&decimal_chars(*version as u64))),
            FrameError::InvalidWhatsUpDudeLength => text("invalid WhatsUpDude length"),
            FrameError::InvalidAllGoodDudeLength => text("invalid AllGoodDude length"),
            FrameError::InvalidBackAgainDudeLength => text("invalid BackAgainDude length"),
            FrameError::InvalidStillGoodDudeLength => text("invalid StillGoodDude length"),
            FrameError::InvalidDataLength => text("invalid DATA length"),
            FrameError::DataPayloadTooLarge => text("DATA payload is too large"),
            FrameError::InvalidPingLength => text("invalid PING length"),
            FrameError::InvalidPongLength => text("invalid PONG length"),
            FrameError::MissingAuthToken => text("PAYPHONE auth token is missing"),
            FrameError::InvalidAuthTokenLength => text("invalid PAYPHONE auth token length"),
            FrameError::AuthTokenTooLarge => text("PAYPHONE auth token is too large"),
            FrameError::InvalidAccessDeniedDudeLength => text("invalid AccessDeniedDude length"),
            FrameError::UnknownDenyReason(code) => joined("unknown access deny reason: ", &string_of(&decimal_chars(*code as u64))),
            FrameError::InvalidCloseLength => text("invalid CLOSE length"),
            FrameError::UnknownCloseReason(code) => joined("unknown close reason: ", &string_of(&decimal_chars(*code as u64))),
            FrameError::InvalidRekeyLength => text("invalid REKEY length"),
        }
    }
}

} // verus!
