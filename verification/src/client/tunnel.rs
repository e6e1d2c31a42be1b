//! The open tunnel: packets out, frames in, keepalives and the end.

use bytes::Bytes;
use vstd::prelude::*;

use super::session::{read_token, token_in};
use super::session_file::SavedSession;
use crate::buffer::{bytes_from_vec, bytes_view};
use crate::protocol::access_denied_dude::{
    access_denied_fault, denied_in, law_access_denied_roundtrip, AccessDeniedDude,
};
use crate::protocol::all_good_dude::SESSION_ID_SIZE;
use crate::protocol::close::{close_fault, close_in, law_close_roundtrip, Close, CloseReason};
use crate::protocol::data::{data_fault, data_in, law_data_roundtrip, Data};
use crate::protocol::error::FrameError;
use crate::protocol::frame::{frame_wire, next, next_sequence, plain_frame, Frame, FrameType};
use crate::protocol::ping::Ping;
use crate::protocol::pong::{law_pong_roundtrip, pong_in, Pong, PONG_SIZE};
use crate::protocol::rekey::Rekey;
use crate::random::os_random_array;
use crate::text::{joined, text};
use crate::tun::packet::{mtu_for, mtu_from_datagram_budget, PAYPHONE_MTU, PAYPHONE_MTU_MAX};
use crate::wire::same_bytes;

verus! {

/// The shortest time between two pings, and the most that chance adds.
pub const PING_INTERVAL_MIN_MS: u64 = 7_000;

pub const PING_INTERVAL_JITTER_MS: u64 = 7_000;

/// How often the routes and the MTU are looked at.
pub const ROUTE_WATCH_MS: u64 = 400;

/// The largest packet that the tunnel device hands over.
pub const MAX_PACKET: usize = 65_535;

/// How many frames wait for the tunnel.
pub const INCOMING_FRAMES: usize = 1024;

pub const SESSION_REPLACED: &'static str = "PAYPHONE session replaced by another device";

pub const SERVER_CLOSED: &'static str = "PAYPHONE server closed the session";

pub const ACCESS_REVOKED: &'static str = "PAYPHONE access revoked: ";

/// How a tunnel ended.
#[derive(Debug)]
pub enum TunnelExit {
    Stopped,
    Disconnected,
    Denied(String),
}

/// An end, its message as a sequence.
pub ghost enum Ending {
    Stopped,
    Disconnected,
    Denied(Seq<char>),
}

impl View for TunnelExit {
    type V = Ending;

    open spec fn view(&self) -> Ending {
        match self {
            TunnelExit::Stopped => Ending::Stopped,
            TunnelExit::Disconnected => Ending::Disconnected,
            TunnelExit::Denied(message) => Ending::Denied(message@),
        }
    }
}

/// What a frame from the server leads to.
#[derive(Debug)]
pub enum TunnelStep {
    Nothing,
    /// Hand the packet to the tunnel device.
    Write(Bytes),
    /// The server is alive.
    Pulse,
    /// Write the session file, then send the frame.
    Rekey { save: SavedSession, send: Bytes },
    /// Take the tunnel down; where `forget` says so, remove the session file
    /// first.
    Exit { forget: bool, exit: TunnelExit },
    /// The frame does not decode.
    Fail(FrameError),
}

/// A step, its bytes as sequences.
pub ghost enum Deed {
    Nothing,
    Write(Seq<u8>),
    Pulse,
    Rekey(SavedSession, Seq<u8>),
    Exit(bool, Ending),
    Fail(FrameError),
}

impl View for TunnelStep {
    type V = Deed;

    open spec fn view(&self) -> Deed {
        match self {
            TunnelStep::Nothing => Deed::Nothing,
            TunnelStep::Write(packet) => Deed::Write(bytes_view(*packet)),
            TunnelStep::Pulse => Deed::Pulse,
            TunnelStep::Rekey { save, send } => Deed::Rekey(*save, bytes_view(*send)),
            TunnelStep::Exit { forget, exit } => Deed::Exit(*forget, exit@),
            TunnelStep::Fail(error) => Deed::Fail(*error),
        }
    }
}

/// The session and what is counted on it.
#[derive(Debug, Clone, Copy)]
pub struct Tunnel {
    pub session_id: [u8; SESSION_ID_SIZE],
    pub packet_id: u64,
    pub frame_sequence: u64,
    pub ping_id: u64,
}

/// How a CLOSE with this reason ends the tunnel.
pub open spec fn ending_of(reason: CloseReason) -> Ending {
    match reason {
        CloseReason::Replaced => Ending::Denied(SESSION_REPLACED@),
        CloseReason::ServerShutdown => Ending::Denied(SERVER_CLOSED@),
        CloseReason::ClientShutdown => Ending::Stopped,
    }
}

/// What a frame, or the end of the connection, leads to.
pub open spec fn deed_of(tunnel: Tunnel, frame: Option<Frame>) -> Deed {
    match frame {
        None => Deed::Exit(false, Ending::Disconnected),
        Some(frame) => {
            let data = frame.data();
            match frame.frame_type {
                FrameType::Data => match data_fault(data) {
                    Some(error) => Deed::Fail(error),
                    None => if data_in(data).session_id != tunnel.session_id {
                        Deed::Nothing
                    } else {
                        Deed::Write(data_in(data).packet())
                    },
                },
                FrameType::Pong => if data.len() != PONG_SIZE {
                    Deed::Fail(FrameError::InvalidPongLength)
                } else if pong_in(data).session_id != tunnel.session_id {
                    Deed::Nothing
                } else {
                    Deed::Pulse
                },
                FrameType::Rekey => match token_in(data, tunnel.session_id) {
                    Some(nonce) => Deed::Rekey(
                        SavedSession { session_id: tunnel.session_id, resume_token: nonce },
                        frame_wire(
                            FrameType::Rekey,
                            tunnel.frame_sequence,
                            (Rekey::Token { session_id: tunnel.session_id, nonce }).wire(),
                        ),
                    ),
                    None => Deed::Nothing,
                },
                FrameType::Close => match close_fault(data) {
                    Some(error) => Deed::Fail(error),
                    None => if close_in(data).session_id != tunnel.session_id {
                        Deed::Nothing
                    } else {
                        Deed::Exit(true, ending_of(close_in(data).reason))
                    },
                },
                FrameType::AccessDeniedDude => match access_denied_fault(data) {
                    Some(error) => Deed::Fail(error),
                    None => Deed::Exit(
                        true,
                        Ending::Denied(ACCESS_REVOKED@ + denied_in(data).reason.spelled()),
                    ),
                },
                _ => Deed::Nothing,
            }
        },
    }
}

impl Tunnel {
    pub fn new(session_id: [u8; SESSION_ID_SIZE]) -> (tunnel: Self)
        ensures
            tunnel == (Tunnel { session_id, packet_id: 1, frame_sequence: 10, ping_id: 1 }),
    {
        Tunnel { session_id, packet_id: 1, frame_sequence: 10, ping_id: 1 }
    }

    /// The frame that carries a packet to the server; an empty packet is not
    /// sent.
    pub fn on_packet(&mut self, packet: &[u8]) -> (frame: Option<Bytes>)
        requires
            packet@.len() <= MAX_PACKET,
        ensures
            if packet@.len() == 0 {
                frame is None && *final(self) == *old(self)
            } else {
                &&& frame matches Some(bytes)
                &&& exists|m: Data|
                    m.session_id == old(self).session_id && m.packet_id == old(self).packet_id && m.packet() == packet@
                        && bytes_view(bytes) == frame_wire(FrameType::Data, old(self).frame_sequence, #[trigger] m.wire())
                &&& *final(self) == (Tunnel {
                    packet_id: next(old(self).packet_id),
                    frame_sequence: next(old(self).frame_sequence),
                    ..*old(self)
                })
            },
    {
        if packet.len() == 0 {
            return None;
        }
        let data = Data::new(self.session_id, self.packet_id, bytes_from_vec(vstd::slice::slice_to_vec(packet)));
        let bytes = plain_frame(FrameType::Data, self.frame_sequence, data.encode());
        assert(bytes_view(bytes) == frame_wire(FrameType::Data, self.frame_sequence, data.wire()));
        self.packet_id = next_sequence(self.packet_id);
        self.frame_sequence = next_sequence(self.frame_sequence);
        Some(bytes)
    }

    /// What a frame from the server leads to, or the end of the connection.
    pub fn on_frame(&mut self, frame: Option<Frame>) -> (step: TunnelStep)
        ensures
            step@ == deed_of(*old(self), frame),
            *final(self) == (Tunnel {
                frame_sequence: if step is Rekey {
                    next(old(self).frame_sequence)
                } else {
                    old(self).frame_sequence
                },
                ..*old(self)
            }),
    {
        let frame = match frame {
            Some(frame) => frame,
            None => return TunnelStep::Exit { forget: false, exit: TunnelExit::Disconnected },
        };
        let ghost data = frame.data();
        match frame.frame_type {
            FrameType::Data => match Data::decode(frame.payload) {
                Ok(message) => {
                    proof {
                        law_data_roundtrip(message, data_in(data));
                    }
                    if !same_bytes(&message.session_id, &self.session_id) {
                        return TunnelStep::Nothing;
                    }
                    assert(message.session_id =~= self.session_id);
                    TunnelStep::Write(message.payload)
                },
                Err(error) => TunnelStep::Fail(error),
            },
            FrameType::Pong => match Pong::decode(frame.payload) {
                Ok(message) => {
                    proof {
                        law_pong_roundtrip(message, pong_in(data));
                    }
                    if same_bytes(&message.session_id, &self.session_id) {
                        assert(message.session_id =~= self.session_id);
                        TunnelStep::Pulse
                    } else {
                        TunnelStep::Nothing
                    }
                },
                Err(error) => TunnelStep::Fail(error),
            },
            FrameType::Rekey => match read_token(frame.payload, self.session_id) {
                Some(nonce) => {
                    let save = SavedSession { session_id: self.session_id, resume_token: nonce };
                    let confirm = Rekey::token(self.session_id, nonce);
                    let send = plain_frame(FrameType::Rekey, self.frame_sequence, confirm.encode());
                    self.frame_sequence = next_sequence(self.frame_sequence);
                    TunnelStep::Rekey { save, send }
                },
                None => TunnelStep::Nothing,
            },
            FrameType::Close => match Close::decode(frame.payload) {
                Ok(message) => {
                    proof {
                        law_close_roundtrip(message, close_in(data));
                    }
                    if !same_bytes(&message.session_id, &self.session_id) {
                        return TunnelStep::Nothing;
                    }
                    assert(message.session_id =~= self.session_id);
                    let exit = match message.reason {
                        CloseReason::Replaced => TunnelExit::Denied(text(SESSION_REPLACED)),
                        CloseReason::ServerShutdown => TunnelExit::Denied(text(SERVER_CLOSED)),
                        CloseReason::ClientShutdown => TunnelExit::Stopped,
                    };
                    TunnelStep::Exit { forget: true, exit }
                },
                Err(error) => TunnelStep::Fail(error),
            },
            FrameType::AccessDeniedDude => match AccessDeniedDude::decode(frame.payload) {
                Ok(message) => {
                    proof {
                        law_access_denied_roundtrip(message, denied_in(data));
                    }
                    let exit = TunnelExit::Denied(joined(ACCESS_REVOKED, message.reason.name()));
                    TunnelStep::Exit { forget: true, exit }
                },
                Err(error) => TunnelStep::Fail(error),
            },
            _ => TunnelStep::Nothing,
        }
    }

    /// The keepalive that is due.
    pub fn on_ping(&mut self) -> (frame: Bytes)
        ensures
            bytes_view(frame) == frame_wire(
                FrameType::Ping,
                old(self).frame_sequence,
                (Ping { session_id: old(self).session_id, ping_id: old(self).ping_id }).wire(),
            ),
            *final(self) == (Tunnel {
                ping_id: next(old(self).ping_id),
                frame_sequence: next(old(self).frame_sequence),
                ..*old(self)
            }),
    {
        let ping = Ping::new(self.session_id, self.ping_id);
        let frame = plain_frame(FrameType::Ping, self.frame_sequence, ping.encode());
        self.ping_id = next_sequence(self.ping_id);
        self.frame_sequence = next_sequence(self.frame_sequence);
        frame
    }

    /// The farewell of a client that is stopped; then the session file is
    /// removed and the tunnel taken down.
    pub fn on_stop(&self) -> (frame: Bytes)
        ensures
            bytes_view(frame) == frame_wire(
                FrameType::Close,
                self.frame_sequence,
                (Close { session_id: self.session_id, reason: CloseReason::ClientShutdown }).wire(),
            ),
    {
        let close = Close::new(self.session_id, CloseReason::ClientShutdown);
        plain_frame(FrameType::Close, self.frame_sequence, close.encode())
    }
}

/// The MTU of the tunnel device: what a QUIC datagram leaves, or the most
/// there is over TLS.
pub open spec fn link_mtu(quic: bool, budget: Option<usize>) -> int {
    if !quic {
        PAYPHONE_MTU_MAX as int
    } else {
        match budget {
            Some(budget) => mtu_for(budget as int),
            None => PAYPHONE_MTU as int,
        }
    }
}

pub fn tun_mtu(quic: bool, budget: Option<usize>) -> (mtu: u16)
    ensures
        mtu == link_mtu(quic, budget),
{
    if !quic {
        return PAYPHONE_MTU_MAX;
    }
    match budget {
        Some(budget) => mtu_from_datagram_budget(budget),
        None => PAYPHONE_MTU,
    }
}

/// The time to the next ping, for two random bytes.
pub open spec fn ping_interval_of(jitter: u16) -> int {
    PING_INTERVAL_MIN_MS + PING_INTERVAL_JITTER_MS * jitter / 65_535
}

pub fn ping_interval(jitter: u16) -> (ms: u64)
    ensures
        ms == ping_interval_of(jitter),
        PING_INTERVAL_MIN_MS <= ms <= PING_INTERVAL_MIN_MS + PING_INTERVAL_JITTER_MS,
{
    let extra: u64 = PING_INTERVAL_JITTER_MS * jitter as u64 / 65_535;
    PING_INTERVAL_MIN_MS + extra
}

/// The time to the next ping, in milliseconds. Without randomness it is the
/// shortest.
pub fn random_ping_interval() -> (ms: u64)
    ensures
        exists|jitter: u16| ms == #[trigger] ping_interval_of(jitter),
{
    let bytes: [u8; 2] = match os_random_array() {
        Some(bytes) => bytes,
        None => [0u8; 2],
    };
    let jitter: u16 = bytes[0] as u16 * 256 + bytes[1] as u16;
    let ms: u64 = ping_interval(jitter);
    assert(ms == ping_interval_of(jitter));
    ms
}

/// How long the client waits before it connects again, after a failure and
/// after the tunnel was lost.
pub const RETRY_MS: u64 = 1_000;

pub const RECONNECT_MS: u64 = 400;

/// What the client does next.
#[derive(Debug)]
pub enum Onward {
    /// Connects again after so many milliseconds.
    Again(u64),
    Quit,
    Fail(String),
    /// Fails with the error that it met.
    FailAsMet,
}

/// A client that was connected once does not give up.
pub fn after_connect_failure(connected_once: bool) -> (onward: Onward)
    ensures
        connected_once ==> onward == Onward::Again(RETRY_MS),
        !connected_once ==> onward == Onward::FailAsMet,
{
    if connected_once {
        Onward::Again(RETRY_MS)
    } else {
        Onward::FailAsMet
    }
}

/// What follows the end of a tunnel.
pub fn after_tunnel(exit: TunnelExit) -> (onward: Onward)
    ensures
        match exit@ {
            Ending::Stopped => onward == Onward::Quit,
            Ending::Disconnected => onward == Onward::Again(RECONNECT_MS),
            Ending::Denied(message) => onward matches Onward::Fail(text) && text@ == message,
        },
{
    match exit {
        TunnelExit::Stopped => Onward::Quit,
        TunnelExit::Disconnected => Onward::Again(RECONNECT_MS),
        TunnelExit::Denied(message) => Onward::Fail(message),
    }
}

// ---------------------------------------------------------------------------
// Laws
// ---------------------------------------------------------------------------

/// A packet goes to the device only from a frame of the tunnel's own
/// session.
pub proof fn law_only_own_packets(tunnel: Tunnel, frame: Frame)
    requires
        deed_of(tunnel, Some(frame)) is Write,
    ensures
        frame.frame_type == FrameType::Data,
        data_in(frame.data()).session_id == tunnel.session_id,
        deed_of(tunnel, Some(frame)) == Deed::Write(data_in(frame.data()).packet()),
{
}

/// A frame for another session neither ends the tunnel nor changes the
/// session file.
pub proof fn law_foreign_close_is_ignored(tunnel: Tunnel, close: Close, frame: Frame)
    requires
        frame.frame_type == FrameType::Close,
        frame.data() == close.wire(),
        close.session_id != tunnel.session_id,
    ensures
        deed_of(tunnel, Some(frame)) == Deed::Nothing,
{
    law_close_roundtrip(close, close_in(frame.data()));
}

/// The packet in a DATA frame for the session reaches the device unchanged.
pub proof fn law_packet_arrives(tunnel: Tunnel, m: Data, frame: Frame)
    requires
        frame.frame_type == FrameType::Data,
        frame.data() == m.wire(),
        m.session_id == tunnel.session_id,
        data_fault(m.wire()) is None,
    ensures
        deed_of(tunnel, Some(frame)) == Deed::Write(m.packet()),
{
    law_data_roundtrip(m, data_in(frame.data()));
}

/// A packet goes out whole, in a frame of the session; each has the next
/// number, and so has each frame.
pub proof fn law_packets_go_out(tunnel: &mut Tunnel, packet: &[u8], frame: Option<Bytes>, m: Data)
    requires
        call_ensures(Tunnel::on_packet, (tunnel, packet), frame),
        0 < packet@.len() <= 65_535,
        m.session_id == old(tunnel).session_id,
        m.packet_id == old(tunnel).packet_id,
        m.packet() == packet@,
        old(tunnel).frame_sequence < u64::MAX,
        old(tunnel).packet_id < u64::MAX,
    ensures
        frame matches Some(bytes) && bytes_view(bytes) == frame_wire(
            FrameType::Data,
            old(tunnel).frame_sequence,
            m.wire(),
        ),
        final(tunnel).frame_sequence == old(tunnel).frame_sequence + 1,
        final(tunnel).packet_id == old(tunnel).packet_id + 1,
        final(tunnel).session_id == old(tunnel).session_id,
        final(tunnel).ping_id == old(tunnel).ping_id,
{
    let other = choose|n: Data|
        n.session_id == old(tunnel).session_id && n.packet_id == old(tunnel).packet_id && n.packet() == packet@
            && bytes_view(frame->0) == frame_wire(FrameType::Data, old(tunnel).frame_sequence, #[trigger] n.wire());
    assert(other.wire() == m.wire());
}

/// A tunnel begins at frame 10, behind those of the handshake; nothing is
/// sent for an empty packet; a ping has the next number; and a client that
/// stops says so.
pub proof fn law_tunnel_counts(
    id: [u8; SESSION_ID_SIZE],
    fresh: Tunnel,
    idle: &mut Tunnel,
    nothing: &[u8],
    none: Option<Bytes>,
    tunnel: &mut Tunnel,
    ping: Bytes,
    stopping: &Tunnel,
    close: Bytes,
)
    requires
        call_ensures(Tunnel::new, (id,), fresh),
        call_ensures(Tunnel::on_packet, (idle, nothing), none),
        nothing@.len() == 0,
        call_ensures(Tunnel::on_ping, (tunnel,), ping),
        call_ensures(Tunnel::on_stop, (stopping,), close),
        old(tunnel).frame_sequence < u64::MAX,
        old(tunnel).ping_id < u64::MAX,
    ensures
        fresh == (Tunnel { session_id: id, packet_id: 1, frame_sequence: 10, ping_id: 1 }),
        none is None && *final(idle) == *old(idle),
        bytes_view(ping) == frame_wire(
            FrameType::Ping,
            old(tunnel).frame_sequence,
            (Ping { session_id: old(tunnel).session_id, ping_id: old(tunnel).ping_id }).wire(),
        ),
        final(tunnel).ping_id == old(tunnel).ping_id + 1,
        final(tunnel).frame_sequence == old(tunnel).frame_sequence + 1,
        final(tunnel).session_id == old(tunnel).session_id,
        final(tunnel).packet_id == old(tunnel).packet_id,
        bytes_view(close) == frame_wire(
            FrameType::Close,
            stopping.frame_sequence,
            (Close { session_id: stopping.session_id, reason: CloseReason::ClientShutdown }).wire(),
        ),
{
}

/// What the server sends reaches the client: a packet its device, a PONG its
/// watch; a token is kept and confirmed; a CLOSE ends the tunnel and the
/// session; so does a refusal. Frames of other sessions do nothing.
pub proof fn law_frames_come_in(
    tunnel: &mut Tunnel,
    frame: Frame,
    step: TunnelStep,
    data: Data,
    pong: Pong,
    close: Close,
    nonce: [u8; 32],
    denied: AccessDeniedDude,
)
    requires
        call_ensures(Tunnel::on_frame, (tunnel, Some(frame)), step),
        old(tunnel).frame_sequence < u64::MAX,
        data.packet().len() <= 65_536,
    ensures
        ({
            let id = old(tunnel).session_id;
            let kind = frame.frame_type;
            let token = Rekey::Token { session_id: id, nonce };
            &&& kind == FrameType::Data && frame.data() == data.wire() ==> {
                &&& data.session_id == id ==> step@ == Deed::Write(data.packet())
                &&& data.session_id != id ==> step@ == Deed::Nothing
            }
            &&& kind == FrameType::Pong && frame.data() == pong.wire() ==> {
                &&& pong.session_id == id ==> step@ == Deed::Pulse
                &&& pong.session_id != id ==> step@ == Deed::Nothing
            }
            &&& kind == FrameType::Close && frame.data() == close.wire() ==> {
                &&& close.session_id != id ==> step@ == Deed::Nothing
                &&& close.session_id == id && close.reason == CloseReason::Replaced ==> step@ == Deed::Exit(
                    true,
                    Ending::Denied("PAYPHONE session replaced by another device"@),
                )
                &&& close.session_id == id && close.reason == CloseReason::ServerShutdown ==> step@ == Deed::Exit(
                    true,
                    Ending::Denied("PAYPHONE server closed the session"@),
                )
                &&& close.session_id == id && close.reason == CloseReason::ClientShutdown ==> step@ == Deed::Exit(
                    true,
                    Ending::Stopped,
                )
            }
            &&& kind == FrameType::Rekey && frame.data() == token.wire() ==> {
                &&& step@ == Deed::Rekey(
                    SavedSession { session_id: id, resume_token: nonce },
                    frame_wire(FrameType::Rekey, old(tunnel).frame_sequence, token.wire()),
                )
                &&& final(tunnel).frame_sequence == old(tunnel).frame_sequence + 1
            }
            &&& kind != FrameType::Rekey ==> *final(tunnel) == *old(tunnel)
            &&& kind == FrameType::AccessDeniedDude && frame.data() == denied.wire() ==> step@ == Deed::Exit(
                true,
                Ending::Denied("PAYPHONE access revoked: "@ + denied.reason.spelled()),
            )
            &&& kind == FrameType::WhatsUpDude || kind == FrameType::AllGoodDude || kind == FrameType::Ping || kind
                == FrameType::BackAgainDude || kind == FrameType::StillGoodDude ==> step@ == Deed::Nothing
        }),
{
    law_data_roundtrip(data, data_in(frame.data()));
    law_pong_roundtrip(pong, pong_in(frame.data()));
    law_close_roundtrip(close, close_in(frame.data()));
    law_access_denied_roundtrip(denied, denied_in(frame.data()));
    let token = Rekey::Token { session_id: old(tunnel).session_id, nonce };
    crate::protocol::rekey::law_rekey_roundtrip(token, crate::protocol::rekey::rekey_in(frame.data()));
}

/// A connection that is lost is no reason to forget the session: the client
/// connects again after 400 milliseconds, and every second while that fails.
/// It stops where it was told to, or where the server said why.
pub proof fn law_client_comes_back(
    tunnel: &mut Tunnel,
    step: TunnelStep,
    exit: TunnelExit,
    onward: Onward,
    connected_once: bool,
    retry: Onward,
)
    requires
        call_ensures(Tunnel::on_frame, (tunnel, None::<Frame>), step),
        call_ensures(after_tunnel, (exit,), onward),
        call_ensures(after_connect_failure, (connected_once,), retry),
    ensures
        step@ == Deed::Exit(false, Ending::Disconnected),
        exit@ == Ending::Disconnected ==> onward == Onward::Again(400),
        exit@ == Ending::Stopped ==> onward == Onward::Quit,
        exit@ matches Ending::Denied(why) ==> (onward matches Onward::Fail(text) && text@ == why),
        connected_once ==> retry == Onward::Again(1_000),
        !connected_once ==> retry == Onward::FailAsMet,
{
}

/// A ping goes out every 7 to 14 seconds, the later the higher the random
/// number.
pub proof fn law_ping_interval(jitter: u16, ms: u64, more: u16, later: u64)
    requires
        call_ensures(ping_interval, (jitter,), ms),
        call_ensures(ping_interval, (more,), later),
    ensures
        7_000 <= ms <= 14_000,
        jitter == 0 ==> ms == 7_000,
        jitter == 65_535 ==> ms == 14_000,
        jitter <= more ==> ms <= later,
        (ms - 7_000) * 65_535 <= 7_000 * jitter < (ms - 7_000 + 1) * 65_535,
{
}

/// The device of a tunnel over TLS takes 1450 bytes, over QUIC what a
/// datagram leaves, and 1100 where that is not known.
pub proof fn law_link_mtu(quic: bool, budget: Option<usize>, mtu: u16)
    requires
        call_ensures(tun_mtu, (quic, budget), mtu),
    ensures
        !quic ==> mtu == 1450,
        quic && budget is None ==> mtu == 1100,
        quic ==> (budget matches Some(budget) ==> {
            &&& budget < 1140 ==> mtu == 1100
            &&& 1140 <= budget <= 1490 ==> mtu == budget - 40
            &&& budget > 1490 ==> mtu == 1450
        }),
{
}

} // verus!
