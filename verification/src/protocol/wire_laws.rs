//! How the messages look on the wire, byte by byte.

use bytes::Bytes;
use vstd::prelude::*;

use super::access_denied_dude::{AccessDeniedDude, DenyReason};
use super::all_good_dude::AllGoodDude;
use super::back_again_dude::BackAgainDude;
use super::close::{Close, CloseReason};
use super::data::Data;
use super::error::FrameError;
use super::frame::{frame_wire, next_sequence, plain_frame, Frame, FrameType};
use super::ping::Ping;
use super::pong::Pong;
use super::rekey::Rekey;
use super::still_good_dude::StillGoodDude;
use super::whats_up_dude::WhatsUpDude;
use crate::buffer::bytes_view;
use crate::wire::{be_bytes, be_value, lemma_be_bytes_len, lemma_be_range, lemma_value_of_bytes};

verus! {

/// A number is written with its highest byte first.
pub proof fn law_highest_byte_first(s: Seq<u8>, n: nat)
    ensures
        s.len() == 1 ==> be_value(s) == s[0],
        s.len() == 2 ==> be_value(s) == s[0] * 0x100 + s[1],
        s.len() == 4 ==> be_value(s) == s[0] * 0x100_0000 + s[1] * 0x1_0000 + s[2] * 0x100 + s[3],
        s.len() == 8 ==> be_value(s) == be_value(s.take(4)) * 0x1_0000_0000 + be_value(s.skip(4)),
        n < 0x1_0000 ==> be_bytes(n, 2).len() == 2 && be_value(be_bytes(n, 2)) == n,
        n < 0x1_0000_0000 ==> be_bytes(n, 4).len() == 4 && be_value(be_bytes(n, 4)) == n,
        n < 0x1_0000_0000_0000_0000 ==> be_bytes(n, 8).len() == 8 && be_value(be_bytes(n, 8)) == n,
{
    lemma_be_range();
    lemma_be_bytes_len(n, 2);
    lemma_be_bytes_len(n, 4);
    lemma_be_bytes_len(n, 8);
    if n < 0x1_0000 {
        lemma_value_of_bytes(n, 2);
    }
    if n < 0x1_0000_0000 {
        lemma_value_of_bytes(n, 4);
    }
    if n < 0x1_0000_0000_0000_0000 {
        lemma_value_of_bytes(n, 8);
    }
    if s.len() <= 4 {
        lemma_four(s);
    }
    if s.len() == 8 {
        lemma_four(s.take(4));
        lemma_four(s.skip(4));
        let a = s.drop_last();
        let b = a.drop_last();
        let c = b.drop_last();
        reveal_with_fuel(be_value, 5);
        assert(c.drop_last() =~= s.take(4));
        assert(be_value(s) == (((be_value(s.take(4)) * 256 + s[4]) * 256 + s[5]) * 256 + s[6]) * 256 + s[7]);
    }
}

proof fn lemma_four(s: Seq<u8>)
    requires
        s.len() <= 4,
    ensures
        s.len() == 1 ==> be_value(s) == s[0],
        s.len() == 2 ==> be_value(s) == s[0] * 0x100 + s[1],
        s.len() == 4 ==> be_value(s) == s[0] * 0x100_0000 + s[1] * 0x1_0000 + s[2] * 0x100 + s[3],
{
    reveal_with_fuel(be_value, 5);
}

/// Each kind of frame and each reason has its own byte.
pub open spec fn frame_byte(t: FrameType) -> u8 {
    match t {
        FrameType::Data => 1,
        FrameType::WhatsUpDude => 2,
        FrameType::AllGoodDude => 3,
        FrameType::Ping => 4,
        FrameType::Pong => 5,
        FrameType::Rekey => 6,
        FrameType::Close => 7,
        FrameType::BackAgainDude => 8,
        FrameType::StillGoodDude => 9,
        FrameType::AccessDeniedDude => 10,
    }
}

pub open spec fn deny_byte(r: DenyReason) -> u8 {
    match r {
        DenyReason::InvalidToken => 1,
        DenyReason::SubscriptionExpired => 2,
        DenyReason::TokenRevoked => 3,
        DenyReason::SubscriptionNotActive => 4,
        DenyReason::UnknownSigningKey => 5,
        DenyReason::UnsupportedPlan => 6,
        DenyReason::InternalAuthError => 7,
    }
}

pub open spec fn close_byte(r: CloseReason) -> u8 {
    match r {
        CloseReason::ClientShutdown => 0,
        CloseReason::ServerShutdown => 1,
        CloseReason::Replaced => 2,
    }
}

/// A frame: version 1, its kind, flags, the length and the number of the
/// frame, then the payload.
pub proof fn law_frame_layout(frame: &Frame, out: Bytes, kind: FrameType, sequence: u64, payload: Bytes, plain: Bytes)
    requires
        call_ensures(Frame::encode, (frame,), out),
        call_ensures(plain_frame, (kind, sequence, payload), plain),
        bytes_view(payload).len() <= 65_536,
        frame.data().len() <= 65_536,
    ensures
        bytes_view(out) == seq![frame.version, frame_byte(frame.frame_type)] + be_bytes(frame.flags as nat, 2) + be_bytes(frame.data().len(), 4) + be_bytes(frame.sequence as nat, 8) + frame.data(),
        bytes_view(plain) == seq![1u8, frame_byte(kind), 0, 0] + be_bytes(bytes_view(payload).len(), 4) + be_bytes(sequence as nat, 8) + bytes_view(payload),
        bytes_view(plain) == frame_wire(kind, sequence, bytes_view(payload)),
{
    reveal_with_fuel(be_bytes, 3);
    assert(be_bytes(0, 2) =~= seq![0u8, 0]);
    assert(bytes_view(plain) =~= seq![1u8, frame_byte(kind), 0, 0] + be_bytes(bytes_view(payload).len(), 4)
        + be_bytes(sequence as nat, 8) + bytes_view(payload));
}

/// Bytes are a frame if they are 16 at least, begin with version 1 and a
/// known kind, tell their own length, and carry 65536 at most. The first of
/// these that fails is the error.
pub proof fn law_frame_reading(data: Bytes, result: Result<Frame, FrameError>)
    requires
        call_ensures(Frame::decode, (data,), result),
    ensures
        ({
            let d = bytes_view(data);
            let told = be_value(d.subrange(4, 8));
            &&& result is Ok <==> d.len() >= 16 && d[0] == 1 && 1 <= d[1] <= 10 && told == d.len() - 16 && d.len()
                - 16 <= 65_536
            &&& d.len() < 16 ==> result == Err::<Frame, FrameError>(FrameError::TooSmall)
            &&& d.len() >= 16 && d[0] != 1 ==> result == Err::<Frame, FrameError>(FrameError::UnsupportedVersion(d[0]))
            &&& d.len() >= 16 && d[0] == 1 && !(1 <= d[1] <= 10) ==> result == Err::<Frame, FrameError>(
                FrameError::UnknownFrameType(d[1]),
            )
            &&& d.len() >= 16 && d[0] == 1 && 1 <= d[1] <= 10 && told != d.len() - 16 ==> result == Err::<
                Frame,
                FrameError,
            >(FrameError::InvalidPayloadLength)
            &&& d.len() > 65_552 && d[0] == 1 && 1 <= d[1] <= 10 && told == d.len() - 16 ==> result == Err::<
                Frame,
                FrameError,
            >(FrameError::PayloadTooLarge)
            &&& result matches Ok(frame) ==> {
                &&& frame_byte(frame.frame_type) == d[1]
                &&& frame.data() == d.skip(16)
                &&& be_bytes(frame.sequence as nat, 8) == d.subrange(8, 16)
            }
        }),
{
    if let Ok(frame) = result {
        lemma_be_bytes_len(frame.flags as nat, 2);
        lemma_be_bytes_len(frame.data().len(), 4);
        lemma_be_bytes_len(frame.sequence as nat, 8);
            let d = bytes_view(data);
        assert(d.skip(16) =~= frame.data());
        assert(d.subrange(8, 16) =~= be_bytes(frame.sequence as nat, 8));
    }
}

/// The next number is one higher; after the highest comes zero.
pub proof fn law_next_number(sequence: u64, after: u64)
    requires
        call_ensures(next_sequence, (sequence,), after),
    ensures
        sequence < 0xffff_ffff_ffff_ffff ==> after == sequence + 1,
        sequence == 0xffff_ffff_ffff_ffff ==> after == 0,
{
}

/// The messages of a session begin with its id.
pub proof fn law_session_messages(
    ping: &Ping,
    a: Bytes,
    pong: &Pong,
    b: Bytes,
    close: &Close,
    c: Bytes,
    rekey: &Rekey,
    d: Bytes,
    back: &BackAgainDude,
    e: Bytes,
    data: &Data,
    f: Bytes,
)
    requires
        call_ensures(Ping::encode, (ping,), a),
        call_ensures(Pong::encode, (pong,), b),
        call_ensures(Close::encode, (close,), c),
        call_ensures(Rekey::encode, (rekey,), d),
        call_ensures(BackAgainDude::encode, (back,), e),
        call_ensures(Data::encode, (data,), f),
    ensures
        bytes_view(a) == ping.session_id@ + be_bytes(ping.ping_id as nat, 8),
        bytes_view(b) == pong.session_id@ + be_bytes(pong.ping_id as nat, 8),
        bytes_view(c) == close.session_id@ + seq![close_byte(close.reason)],
        rekey matches Rekey::Request { session_id } ==> bytes_view(d) == session_id@,
        rekey matches Rekey::Token { session_id, nonce } ==> bytes_view(d) == session_id@ + nonce@,
        bytes_view(e) == back.session_id@ + back.resume_token@,
        bytes_view(f) == data.session_id@ + be_bytes(data.packet_id as nat, 8) + data.packet(),
{
    assert(bytes_view(c) =~= close.session_id@ + seq![close_byte(close.reason)]);
}

/// The messages of the handshake.
pub proof fn law_handshake_messages(
    greeting: &WhatsUpDude,
    a: Bytes,
    good: &AllGoodDude,
    b: Bytes,
    still: &StillGoodDude,
    c: Bytes,
    denied: &AccessDeniedDude,
    d: Bytes,
)
    requires
        call_ensures(WhatsUpDude::encode, (greeting,), a),
        call_ensures(AllGoodDude::encode, (good,), b),
        call_ensures(StillGoodDude::encode, (still,), c),
        call_ensures(AccessDeniedDude::encode, (denied,), d),
        greeting.token().len() <= 2048,
    ensures
        bytes_view(a) == seq![greeting.protocol_version] + be_bytes(greeting.client_version as nat, 2) + be_bytes(greeting.capabilities as nat, 4) + greeting.client_nonce@ + be_bytes(greeting.token().len(), 2) + greeting.token(),
        bytes_view(b) == seq![good.protocol_version] + good.session_id@ + good.assigned_ipv4@ + be_bytes(good.mtu as nat, 2)
            + be_bytes(good.capabilities as nat, 4) + good.server_nonce@,
        bytes_view(c) == still.session_id@ + still.assigned_ipv4@ + be_bytes(still.mtu as nat, 2) + be_bytes(still.capabilities as nat, 4),
        bytes_view(d) == seq![deny_byte(denied.reason)] + be_bytes(denied.expires_at as nat, 8),
{
}

/// What is read is what was written: a message is read from exactly the
/// bytes that it is written as.
pub proof fn law_messages_read_back(
    a: Bytes,
    ping: Result<Ping, FrameError>,
    pong: Result<Pong, FrameError>,
    close: Result<Close, FrameError>,
    rekey: Result<Rekey, FrameError>,
    back: Result<BackAgainDude, FrameError>,
    data: Result<Data, FrameError>,
    denied: Result<AccessDeniedDude, FrameError>,
    still: Result<StillGoodDude, FrameError>,
    good: Result<AllGoodDude, FrameError>,
)
    requires
        call_ensures(Ping::decode, (a,), ping),
        call_ensures(Pong::decode, (a,), pong),
        call_ensures(Close::decode, (a,), close),
        call_ensures(Rekey::decode, (a,), rekey),
        call_ensures(BackAgainDude::decode, (a,), back),
        call_ensures(Data::decode, (a,), data),
        call_ensures(AccessDeniedDude::decode, (a,), denied),
        call_ensures(StillGoodDude::decode, (a,), still),
        call_ensures(AllGoodDude::decode, (a,), good),
    ensures
        ({
            let d = bytes_view(a);
            &&& ping is Ok <==> d.len() == 24
            &&& pong is Ok <==> d.len() == 24
            &&& close is Ok <==> d.len() == 17 && d[16] <= 2
            &&& rekey is Ok <==> d.len() == 16 || d.len() == 48
            &&& back is Ok <==> d.len() == 48
            &&& data is Ok <==> 24 <= d.len() <= 65_560
            &&& denied is Ok <==> d.len() == 9 && 1 <= d[0] <= 7
            &&& still is Ok <==> d.len() == 26
            &&& good is Ok <==> d.len() == 59
            &&& ping matches Ok(m) ==> d == m.session_id@ + be_bytes(m.ping_id as nat, 8)
            &&& pong matches Ok(m) ==> d == m.session_id@ + be_bytes(m.ping_id as nat, 8)
            &&& close matches Ok(m) ==> d == m.session_id@ + seq![close_byte(m.reason)]
            &&& rekey matches Ok(Rekey::Request { session_id }) ==> d == session_id@
            &&& rekey matches Ok(Rekey::Token { session_id, nonce }) ==> d == session_id@ + nonce@
            &&& back matches Ok(m) ==> d == m.session_id@ + m.resume_token@
            &&& data matches Ok(m) ==> d == m.session_id@ + be_bytes(m.packet_id as nat, 8) + m.packet()
            &&& denied matches Ok(m) ==> d == seq![deny_byte(m.reason)] + be_bytes(m.expires_at as nat, 8)
            &&& still matches Ok(m) ==> d == m.session_id@ + m.assigned_ipv4@ + be_bytes(m.mtu as nat, 2) + be_bytes(m.capabilities as nat, 4)
            &&& good matches Ok(m) ==> d == seq![m.protocol_version] + m.session_id@ + m.assigned_ipv4@ + be_bytes(m.mtu as nat, 2) + be_bytes(m.capabilities as nat, 4) + m.server_nonce@
        }),
{
    if let Ok(m) = close {
        assert(bytes_view(a) =~= m.session_id@ + seq![close_byte(m.reason)]);
    }
}

} // verus!
