//! What is said of errors, word by word.

use vstd::prelude::*;

use crate::auth::token::AuthError;
use crate::client::session::HandshakeFault;
use crate::issuer::IssueError;
use crate::protocol::access_denied_dude::DenyReason;
use crate::protocol::error::FrameError;
use crate::protocol::frame::FrameType;
use crate::settings::SettingsError;
use crate::text::decimal;
use crate::transport::reality::config::RealityConfigError;
use crate::transport::reality::keys::RealityKeyError;

verus! {

/// What is said of a token that is no good.
pub proof fn law_token_words(e: &AuthError, m: String)
    requires
        call_ensures(AuthError::message, (e,), m),
    ensures
        *e == AuthError::InvalidTokenLength ==> m@ == "invalid subscription token length"@,
        *e == AuthError::InvalidMagic ==> m@ == "invalid subscription token magic"@,
        *e matches AuthError::UnsupportedTokenVersion(version) ==> m@ == "unsupported token version: "@ + decimal(version as nat),
        *e matches AuthError::UnknownPlan(code) ==> m@ == "unknown subscription plan: "@ + decimal(code as nat),
        *e == AuthError::InvalidSignature ==> m@ == "invalid subscription token signature"@,
        *e matches AuthError::UnknownKeyId(id) ==> m@ == "unknown signing key id: "@ + decimal(id as nat),
        *e == AuthError::NotYetValid ==> m@ == "subscription token is not active yet"@,
        *e == AuthError::Expired ==> m@ == "subscription token expired"@,
        *e == AuthError::IssuedInFuture ==> m@ == "subscription token was issued in the future"@,
        *e == AuthError::Revoked ==> m@ == "subscription token is revoked"@,
        *e == AuthError::InvalidTimeRange ==> m@ == "invalid token time range"@,
{
}

/// What is said of a frame or a message that is no good.
pub proof fn law_frame_words(e: &FrameError, m: String)
    requires
        call_ensures(FrameError::message, (e,), m),
    ensures
        *e == FrameError::TooSmall ==> m@ == "frame is too small"@,
        *e matches FrameError::UnknownFrameType(code) ==> m@ == "unknown frame type: "@ + decimal(code as nat),
        *e == FrameError::PayloadTooLarge ==> m@ == "payload is too large"@,
        *e == FrameError::InvalidPayloadLength ==> m@ == "invalid payload length"@,
        *e matches FrameError::UnsupportedVersion(version) ==> m@ == "unsupported PAYPHONE version: "@ + decimal(version as nat),
        *e == FrameError::InvalidWhatsUpDudeLength ==> m@ == "invalid WhatsUpDude length"@,
        *e == FrameError::InvalidAllGoodDudeLength ==> m@ == "invalid AllGoodDude length"@,
        *e == FrameError::InvalidBackAgainDudeLength ==> m@ == "invalid BackAgainDude length"@,
        *e == FrameError::InvalidStillGoodDudeLength ==> m@ == "invalid StillGoodDude length"@,
        *e == FrameError::InvalidDataLength ==> m@ == "invalid DATA length"@,
        *e == FrameError::DataPayloadTooLarge ==> m@ == "DATA payload is too large"@,
        *e == FrameError::InvalidPingLength ==> m@ == "invalid PING length"@,
        *e == FrameError::InvalidPongLength ==> m@ == "invalid PONG length"@,
        *e == FrameError::MissingAuthToken ==> m@ == "PAYPHONE auth token is missing"@,
        *e == FrameError::InvalidAuthTokenLength ==> m@ == "invalid PAYPHONE auth token length"@,
        *e == FrameError::AuthTokenTooLarge ==> m@ == "PAYPHONE auth token is too large"@,
        *e == FrameError::InvalidAccessDeniedDudeLength ==> m@ == "invalid AccessDeniedDude length"@,
        *e matches FrameError::UnknownDenyReason(code) ==> m@ == "unknown access deny reason: "@ + decimal(code as nat),
        *e == FrameError::InvalidCloseLength ==> m@ == "invalid CLOSE length"@,
        *e matches FrameError::UnknownCloseReason(code) ==> m@ == "unknown close reason: "@ + decimal(code as nat),
        *e == FrameError::InvalidRekeyLength ==> m@ == "invalid REKEY length"@,
{
}

/// What is said of a key or a short id that is no good.
pub proof fn law_reality_key_words(e: &RealityKeyError, m: String)
    requires
        call_ensures(RealityKeyError::message, (e,), m),
    ensures
        *e == RealityKeyError::Empty ==> m@ == "empty REALITY key"@,
        *e == RealityKeyError::NotText ==> m@ == "REALITY key is not 32 raw bytes or UTF-8 text"@,
        *e == RealityKeyError::NotHexOrBase64 ==> m@ == "REALITY key is not hex or base64"@,
        *e matches RealityKeyError::WrongLength(len) ==> m@ == "REALITY key decoded to "@ + decimal(len as nat) + " bytes, expected 32"@,
        *e == RealityKeyError::ShortIdLength ==> m@ == "REALITY shortId must be 1–8 hex bytes"@,
        *e == RealityKeyError::ShortIdNotHex ==> m@ == "REALITY shortId must be hex"@,
        *e == RealityKeyError::NoShortIds ==> m@ == "REALITY shortId list is empty"@,
{
}

/// What is said of REALITY settings that are no good.
pub proof fn law_reality_words(e: &RealityConfigError, m: String)
    requires
        call_ensures(RealityConfigError::message, (e,), m),
    ensures
        *e == RealityConfigError::NoDest ==> m@ == "PAYPHONE_REALITY_DEST is empty"@,
        *e == RealityConfigError::NoShortId ==> m@ == "PAYPHONE_REALITY_SHORT_ID is empty"@,
        *e == RealityConfigError::BlankDest ==> m@ == "REALITY dest is empty"@,
        *e == RealityConfigError::MissingBracket ==> m@ == "invalid REALITY dest: missing ]"@,
{
}

/// What is said of a handshake that failed.
pub proof fn law_handshake_words(e: &HandshakeFault, m: String)
    requires
        call_ensures(HandshakeFault::message, (e,), m),
    ensures
        *e == HandshakeFault::NotSent ==> m@ == "the server cannot be reached"@,
        *e == HandshakeFault::NoReply ==> m@ == "no answer from the server"@,
        *e matches HandshakeFault::Denied(reason) ==> m@ == "PAYPHONE access denied: "@ + reason.spelled(),
        *e matches HandshakeFault::Unexpected(frame_type) ==> m@ == "unexpected handshake frame: "@ + frame_type.spelled(),
        *e == HandshakeFault::Finished ==> m@ == "the handshake is over"@,
{
}

/// What is said of settings that are no good.
pub proof fn law_settings_words(e: &SettingsError, m: String)
    requires
        call_ensures(SettingsError::message, (e,), m),
    ensures
        *e == SettingsError::NoPsk ==> m@ == "PAYPHONE_OBFS_PSK is not set; pass --psk or put it in .env / payphone.toml"@,
        *e == SettingsError::NoRealityDest ==> m@ == "PAYPHONE_REALITY=on requires --reality-dest / PAYPHONE_REALITY_DEST"@,
        *e == SettingsError::NoRealityShortId ==> m@ == "PAYPHONE_REALITY=on requires --reality-short-id / PAYPHONE_REALITY_SHORT_ID"@,
        *e == SettingsError::NoClientShortId ==> m@ == "REALITY public key is set; pass --reality-short-id / PAYPHONE_REALITY_SHORT_ID"@,
        *e == SettingsError::UnknownTransport ==> m@ == "unknown transport; use quic or tls"@,
{
}

/// What the token tool says when it fails.
pub proof fn law_issue_words(e: &IssueError, m: String)
    requires
        call_ensures(IssueError::message, (e,), m),
    ensures
        *e == IssueError::BadDays ==> m@ == "days must be a positive integer"@,
        *e == IssueError::NoDays ==> m@ == "days must be greater than zero"@,
        *e == IssueError::UnknownPlan ==> m@ == "unknown subscription plan"@,
        *e == IssueError::PrivateKeyExists ==> m@ == "auth-keys/subscription-private.key already exists; refusing to overwrite signing key"@,
        *e == IssueError::PublicKeyExists ==> m@ == "auth-keys/subscription-public.key already exists; refusing to overwrite public key"@,
        *e == IssueError::KeyLength ==> m@ == "subscription private key must be exactly 32 bytes"@,
        *e == IssueError::LifetimeOverflow ==> m@ == "subscription lifetime overflow"@,
        *e == IssueError::ExpiryOverflow ==> m@ == "subscription expiry overflow"@,
        *e == IssueError::NoRandomness ==> m@ == "OS random generator failed"@,
        *e == IssueError::NoTokenId ==> m@ == "neither a token file nor a token id"@,
{
}

/// The names of frames and of the reasons for which clients are turned away.
pub proof fn law_names(t: FrameType, name: &'static str, r: DenyReason, reason: &'static str)
    requires
        call_ensures(FrameType::name, (t,), name),
        call_ensures(DenyReason::name, (r,), reason),
    ensures
        t == FrameType::Data ==> name@ == "Data"@,
        t == FrameType::WhatsUpDude ==> name@ == "WhatsUpDude"@,
        t == FrameType::AllGoodDude ==> name@ == "AllGoodDude"@,
        t == FrameType::Ping ==> name@ == "Ping"@,
        t == FrameType::Pong ==> name@ == "Pong"@,
        t == FrameType::Rekey ==> name@ == "Rekey"@,
        t == FrameType::Close ==> name@ == "Close"@,
        t == FrameType::BackAgainDude ==> name@ == "BackAgainDude"@,
        t == FrameType::StillGoodDude ==> name@ == "StillGoodDude"@,
        t == FrameType::AccessDeniedDude ==> name@ == "AccessDeniedDude"@,
        r == DenyReason::InvalidToken ==> reason@ == "InvalidToken"@,
        r == DenyReason::UnknownSigningKey ==> reason@ == "UnknownSigningKey"@,
        r == DenyReason::SubscriptionExpired ==> reason@ == "SubscriptionExpired"@,
        r == DenyReason::SubscriptionNotActive ==> reason@ == "SubscriptionNotActive"@,
        r == DenyReason::TokenRevoked ==> reason@ == "TokenRevoked"@,
        r == DenyReason::UnsupportedPlan ==> reason@ == "UnsupportedPlan"@,
{
}

} // verus!
