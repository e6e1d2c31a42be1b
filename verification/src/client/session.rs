//! How the client gets its session: it resumes the one on file or asks for a
//! new one, then has the resume token replaced.

use bytes::Bytes;
use vstd::prelude::*;

use super::session_file::SavedSession;
use crate::buffer::{bytes_from_vec, bytes_view};
use crate::protocol::access_denied_dude::{
    access_denied_fault, denied_in, law_access_denied_roundtrip, AccessDeniedDude, DenyReason,
};
use crate::protocol::all_good_dude::{
    all_good_in, law_all_good_roundtrip, AllGoodDude, ALL_GOOD_DUDE_SIZE, SERVER_NONCE_SIZE, SESSION_ID_SIZE,
};
use crate::protocol::back_again_dude::BackAgainDude;
use crate::protocol::error::FrameError;
use crate::protocol::frame::{frame_wire, plain_frame, Frame, FrameType, PROTOCOL_VERSION};
use crate::protocol::rekey::{law_rekey_roundtrip, rekey_in, Rekey, REKEY_TOKEN_SIZE};
use crate::protocol::still_good_dude::{
    law_still_good_roundtrip, still_good_in, StillGoodDude, STILL_GOOD_DUDE_SIZE,
};
use crate::protocol::whats_up_dude::{WhatsUpDude, MAX_AUTH_TOKEN_SIZE};
use crate::text::{joined, text};
use crate::wire::same_bytes;

verus! {

pub const CLIENT_VERSION: u16 = 1;

/// `CAP_IPV4`, `CAP_IPV6`, `CAP_DNS`, `CAP_RESUME` and `CAP_ROAMING`.
pub const CLIENT_CAPABILITIES: u32 = 31;

/// How long a new session is waited for.
pub const RESPONSE_TIMEOUT_MS: u64 = 5_000;

/// How long the answer to any other question is waited for.
pub const SHORT_TIMEOUT_MS: u64 = 2_000;

/// A session that the tunnel can run on.
#[derive(Debug, Clone, Copy, PartialEq, Eq)]
pub struct ActiveSession {
    pub session_id: [u8; SESSION_ID_SIZE],
    pub assigned_ipv4: [u8; 4],
    pub mtu: u16,
    pub capabilities: u32,
}

#[derive(Debug, Clone, Copy, PartialEq, Eq, Structural)]
pub enum HandshakeFault {
    /// The first message could not be sent.
    NotSent,
    /// No answer to the request for a session.
    NoReply,
    /// An answer that does not decode.
    BadFrame(FrameError),
    /// Access denied.
    Denied(DenyReason),
    /// An answer of another kind.
    Unexpected(FrameType),
    /// The handshake was over already.
    Finished,
}

impl HandshakeFault {
    pub open spec fn message_spec(&self) -> Seq<char> {
        match self {
            HandshakeFault::NotSent => "the server cannot be reached"@,
            HandshakeFault::NoReply => "no answer from the server"@,
            HandshakeFault::BadFrame(error) => error.message_spec(),
            HandshakeFault::Denied(reason) => "PAYPHONE access denied: "@ + reason.spelled(),
            HandshakeFault::Unexpected(frame_type) => "unexpected handshake frame: "@ + frame_type.spelled(),
            HandshakeFault::Finished => "the handshake is over"@,
        }
    }

    /// The error in words.
    pub fn message(&self) -> (message: String)
        ensures
            message@ == self.message_spec(),
    {
        match self {
            HandshakeFault::NotSent => text("the server cannot be reached"),
            HandshakeFault::NoReply => text("no answer from the server"),
            HandshakeFault::BadFrame(error) => error.message(),
            HandshakeFault::Denied(reason) => joined("PAYPHONE access denied: ", reason.name()),
            HandshakeFault::Unexpected(frame_type) => joined("unexpected handshake frame: ", frame_type.name()),
            HandshakeFault::Finished => text("the handshake is over"),
        }
    }
}

/// What is waited for.
#[derive(Debug, Clone, Copy)]
pub enum Phase {
    /// The answer to BACK_AGAIN_DUDE.
    Resuming(SavedSession),
    /// The subscription token.
    NeedToken,
    /// The answer to WHATS_UP_DUDE.
    Creating,
    /// A new resume token, for a session that was resumed or is new.
    Rotating { session: ActiveSession, resumed: bool },
    /// The answer to the token's confirmation.
    Confirming { session: ActiveSession, resumed: bool },
    Over,
}

#[derive(Debug, Clone, Copy)]
pub enum Next {
    /// Wait so many milliseconds for a frame.
    Wait(u64),
    /// Read the subscription token.
    NeedToken,
    Up { session: ActiveSession, resumed: bool },
    Failed(HandshakeFault),
}

/// What is to be done, in this order.
#[derive(Debug)]
pub struct Step {
    /// Remove the session file.
    pub forget: bool,
    /// Why the saved session was refused.
    pub denied: Option<DenyReason>,
    /// Write the session file.
    pub save: Option<SavedSession>,
    /// The handshake fails where the file cannot be written.
    pub must_save: bool,
    /// A frame for the server.
    pub send: Option<Bytes>,
    pub next: Next,
}

/// A step, its frame as a sequence.
pub ghost struct Move {
    pub forget: bool,
    pub denied: Option<DenyReason>,
    pub save: Option<SavedSession>,
    pub must_save: bool,
    pub send: Option<Seq<u8>>,
    pub next: Next,
}

impl View for Step {
    type V = Move;

    open spec fn view(&self) -> Move {
        Move {
            forget: self.forget,
            denied: self.denied,
            save: self.save,
            must_save: self.must_save,
            send: match self.send {
                Some(bytes) => Some(bytes_view(bytes)),
                None => None,
            },
            next: self.next,
        }
    }
}

/// A step that only says how it goes on.
pub open spec fn just(next: Next) -> Move {
    Move { forget: false, denied: None, save: None, must_save: false, send: None, next }
}

fn go(next: Next) -> (step: Step)
    ensures
        step@ == just(next),
{
    Step { forget: false, denied: None, save: None, must_save: false, send: None, next }
}

// ---------------------------------------------------------------------------
// The frames of the handshake
// ---------------------------------------------------------------------------

pub open spec fn back_again_frame(saved: SavedSession) -> Seq<u8> {
    frame_wire(
        FrameType::BackAgainDude,
        1,
        (BackAgainDude { session_id: saved.session_id, resume_token: saved.resume_token }).wire(),
    )
}

/// WHATS_UP_DUDE with this token and some nonce.
pub open spec fn is_whats_up_frame(bytes: Seq<u8>, token: Seq<u8>) -> bool {
    exists|m: WhatsUpDude|
        m.protocol_version == PROTOCOL_VERSION && m.client_version == CLIENT_VERSION && m.capabilities
            == CLIENT_CAPABILITIES && m.token() == token && bytes == frame_wire(
            FrameType::WhatsUpDude,
            1,
            #[trigger] m.wire(),
        )
}

pub open spec fn request_frame(session_id: [u8; SESSION_ID_SIZE]) -> Seq<u8> {
    frame_wire(FrameType::Rekey, 2, (Rekey::Request { session_id }).wire())
}

pub open spec fn confirm_frame(session_id: [u8; SESSION_ID_SIZE], nonce: [u8; SERVER_NONCE_SIZE]) -> Seq<u8> {
    frame_wire(FrameType::Rekey, 3, (Rekey::Token { session_id, nonce }).wire())
}

/// The resume token that a payload brings for a session.
pub open spec fn token_in(data: Seq<u8>, session_id: [u8; SESSION_ID_SIZE]) -> Option<[u8; SERVER_NONCE_SIZE]> {
    if data.len() == REKEY_TOKEN_SIZE {
        match rekey_in(data) {
            Rekey::Token { session_id: id, nonce } => if id == session_id {
                Some(nonce)
            } else {
                None
            },
            Rekey::Request { .. } => None,
        }
    } else {
        None
    }
}

pub(super) fn read_token(payload: Bytes, session_id: [u8; SESSION_ID_SIZE]) -> (nonce: Option<[u8; SERVER_NONCE_SIZE]>)
    ensures
        nonce == token_in(bytes_view(payload), session_id),
{
    let ghost data = bytes_view(payload);
    match Rekey::decode(payload) {
        Ok(message) => {
            proof {
                law_rekey_roundtrip(message, rekey_in(data));
            }
            match message {
                Rekey::Token { session_id: id, nonce } => {
                    if same_bytes(&id, &session_id) {
                        assert(id =~= session_id);
                        Some(nonce)
                    } else {
                        None
                    }
                },
                Rekey::Request { .. } => None,
            }
        },
        Err(_) => None,
    }
}

// ---------------------------------------------------------------------------
// The steps
// ---------------------------------------------------------------------------

/// The old session is forgotten and a new one is asked for.
pub open spec fn anew(denied: Option<DenyReason>) -> (Phase, Move) {
    (Phase::NeedToken, Move { forget: true, denied, ..just(Next::NeedToken) })
}

pub open spec fn failed(fault: HandshakeFault) -> (Phase, Move) {
    (Phase::Over, just(Next::Failed(fault)))
}

pub open spec fn up(session: ActiveSession, resumed: bool) -> (Phase, Move) {
    (Phase::Over, just(Next::Up { session, resumed }))
}

/// A session is there: the server is asked for a new resume token.
pub open spec fn rotate(session: ActiveSession, resumed: bool, save: Option<SavedSession>) -> (Phase, Move) {
    (
        Phase::Rotating { session, resumed },
        Move {
            save,
            must_save: save is Some,
            send: Some(request_frame(session.session_id)),
            ..just(Next::Wait(SHORT_TIMEOUT_MS))
        },
    )
}

/// What the answer to BACK_AGAIN_DUDE leads to.
pub open spec fn on_resume(saved: SavedSession, reply: Option<Frame>) -> (Phase, Move) {
    match reply {
        None => anew(None),
        Some(frame) => match frame.frame_type {
            FrameType::StillGoodDude => if frame.data().len() != STILL_GOOD_DUDE_SIZE {
                failed(HandshakeFault::BadFrame(FrameError::InvalidStillGoodDudeLength))
            } else {
                let m = still_good_in(frame.data());
                if m.session_id != saved.session_id {
                    anew(None)
                } else {
                    rotate(
                        ActiveSession {
                            session_id: m.session_id,
                            assigned_ipv4: m.assigned_ipv4,
                            mtu: m.mtu,
                            capabilities: m.capabilities,
                        },
                        true,
                        None,
                    )
                }
            },
            FrameType::AccessDeniedDude => match access_denied_fault(frame.data()) {
                Some(error) => failed(HandshakeFault::BadFrame(error)),
                None => anew(Some(denied_in(frame.data()).reason)),
            },
            _ => anew(None),
        },
    }
}

/// What the answer to WHATS_UP_DUDE leads to.
pub open spec fn on_create(reply: Option<Frame>) -> (Phase, Move) {
    match reply {
        None => failed(HandshakeFault::NoReply),
        Some(frame) => match frame.frame_type {
            FrameType::AllGoodDude => if frame.data().len() != ALL_GOOD_DUDE_SIZE {
                failed(HandshakeFault::BadFrame(FrameError::InvalidAllGoodDudeLength))
            } else {
                let m = all_good_in(frame.data());
                rotate(
                    ActiveSession {
                        session_id: m.session_id,
                        assigned_ipv4: m.assigned_ipv4,
                        mtu: m.mtu,
                        capabilities: m.capabilities,
                    },
                    false,
                    Some(SavedSession { session_id: m.session_id, resume_token: m.server_nonce }),
                )
            },
            FrameType::AccessDeniedDude => match access_denied_fault(frame.data()) {
                Some(error) => failed(HandshakeFault::BadFrame(error)),
                None => failed(HandshakeFault::Denied(denied_in(frame.data()).reason)),
            },
            other => failed(HandshakeFault::Unexpected(other)),
        },
    }
}

/// What a new resume token leads to: it is kept and confirmed. The session is
/// up without one too.
pub open spec fn on_token(session: ActiveSession, resumed: bool, reply: Option<Frame>) -> (Phase, Move) {
    let token = match reply {
        Some(frame) => token_in(frame.data(), session.session_id),
        None => None,
    };
    match token {
        Some(nonce) => (
            Phase::Confirming { session, resumed },
            Move {
                save: Some(SavedSession { session_id: session.session_id, resume_token: nonce }),
                send: Some(confirm_frame(session.session_id, nonce)),
                ..just(Next::Wait(SHORT_TIMEOUT_MS))
            },
        ),
        None => up(session, resumed),
    }
}

/// What the answer to the confirmation leads to: its token is kept, and the
/// session is up.
pub open spec fn on_confirmed(session: ActiveSession, resumed: bool, reply: Option<Frame>) -> (Phase, Move) {
    let token = match reply {
        Some(frame) => token_in(frame.data(), session.session_id),
        None => None,
    };
    let (phase, step) = up(session, resumed);
    match token {
        Some(nonce) => (
            phase,
            Move { save: Some(SavedSession { session_id: session.session_id, resume_token: nonce }), ..step },
        ),
        None => (phase, step),
    }
}

/// What a frame, or none in the time given, leads to.
pub open spec fn after_reply(phase: Phase, reply: Option<Frame>) -> (Phase, Move) {
    match phase {
        Phase::Resuming(saved) => on_resume(saved, reply),
        Phase::Creating => on_create(reply),
        Phase::Rotating { session, resumed } => on_token(session, resumed, reply),
        Phase::Confirming { session, resumed } => on_confirmed(session, resumed, reply),
        Phase::NeedToken => (phase, just(Next::NeedToken)),
        Phase::Over => (phase, just(Next::Failed(HandshakeFault::Finished))),
    }
}

/// What a frame that could not be sent leads to: a session that is there
/// stays up.
pub open spec fn after_send_failure(phase: Phase) -> (Phase, Move) {
    match phase {
        Phase::Resuming(_) => failed(HandshakeFault::NotSent),
        Phase::Creating => failed(HandshakeFault::NotSent),
        Phase::Rotating { session, resumed } => up(session, resumed),
        Phase::Confirming { .. } => (phase, just(Next::Wait(SHORT_TIMEOUT_MS))),
        Phase::NeedToken => (phase, just(Next::NeedToken)),
        Phase::Over => (phase, just(Next::Failed(HandshakeFault::Finished))),
    }
}

pub struct Handshake {
    pub phase: Phase,
}

impl Handshake {
    /// Starts with the saved session, where there is one.
    pub fn begin(saved: Option<SavedSession>) -> (out: (Self, Step))
        ensures
            match saved {
                Some(saved) => out.0.phase == Phase::Resuming(saved) && out.1@ == (Move {
                    send: Some(back_again_frame(saved)),
                    ..just(Next::Wait(SHORT_TIMEOUT_MS))
                }),
                None => out.0.phase == Phase::NeedToken && out.1@ == just(Next::NeedToken),
            },
    {
        match saved {
            Some(saved) => {
                let message = BackAgainDude::new(saved.session_id, saved.resume_token);
                let mut step = go(Next::Wait(SHORT_TIMEOUT_MS));
                step.send = Some(plain_frame(FrameType::BackAgainDude, 1, message.encode()));
                (Handshake { phase: Phase::Resuming(saved) }, step)
            },
            None => (Handshake { phase: Phase::NeedToken }, go(Next::NeedToken)),
        }
    }

    /// Asks for a new session with a subscription token.
    pub fn ask(&mut self, token: Vec<u8>) -> (step: Step)
        requires
            token@.len() <= MAX_AUTH_TOKEN_SIZE,
        ensures
            match old(self).phase {
                Phase::NeedToken => {
                    &&& final(self).phase == Phase::Creating
                    &&& step@.send matches Some(bytes)
                    &&& is_whats_up_frame(bytes, token@)
                    &&& step@ == (Move { send: step@.send, ..just(Next::Wait(RESPONSE_TIMEOUT_MS)) })
                },
                _ => *final(self) == *old(self) && step@ == just(Next::Failed(HandshakeFault::Finished)),
            },
    {
        match self.phase {
            Phase::NeedToken => {
                let message = WhatsUpDude::new(CLIENT_VERSION, CLIENT_CAPABILITIES, bytes_from_vec(token));
                let payload = message.encode();
                let bytes = plain_frame(FrameType::WhatsUpDude, 1, payload);
                assert(is_whats_up_frame(bytes_view(bytes), token@)) by {
                    assert(bytes_view(bytes) == frame_wire(FrameType::WhatsUpDude, 1, message.wire()));
                }
                let mut step = go(Next::Wait(RESPONSE_TIMEOUT_MS));
                step.send = Some(bytes);
                self.phase = Phase::Creating;
                step
            },
            _ => go(Next::Failed(HandshakeFault::Finished)),
        }
    }

    /// The step that a phase and a move stand for, and the phase taken.
    fn take(&mut self, phase: Phase, step: Step) -> (out: Step)
        ensures
            final(self).phase == phase,
            out == step,
    {
        self.phase = phase;
        step
    }

    fn start_over(&mut self, denied: Option<DenyReason>) -> (step: Step)
        ensures
            (final(self).phase, step@) == anew(denied),
    {
        let mut step = go(Next::NeedToken);
        step.forget = true;
        step.denied = denied;
        self.take(Phase::NeedToken, step)
    }

    fn fail(&mut self, fault: HandshakeFault) -> (step: Step)
        ensures
            (final(self).phase, step@) == failed(fault),
    {
        self.take(Phase::Over, go(Next::Failed(fault)))
    }

    fn come_up(&mut self, session: ActiveSession, resumed: bool) -> (step: Step)
        ensures
            (final(self).phase, step@) == up(session, resumed),
    {
        self.take(Phase::Over, go(Next::Up { session, resumed }))
    }

    fn start_rotation(&mut self, session: ActiveSession, resumed: bool, save: Option<SavedSession>) -> (step: Step)
        ensures
            (final(self).phase, step@) == rotate(session, resumed, save),
    {
        let mut step = go(Next::Wait(SHORT_TIMEOUT_MS));
        step.send = Some(plain_frame(FrameType::Rekey, 2, Rekey::request(session.session_id).encode()));
        step.must_save = save.is_some();
        step.save = save;
        self.take(Phase::Rotating { session, resumed }, step)
    }

    fn resume_reply(&mut self, saved: SavedSession, reply: Option<Frame>) -> (step: Step)
        ensures
            (final(self).phase, step@) == on_resume(saved, reply),
    {
        let frame = match reply {
            Some(frame) => frame,
            None => return self.start_over(None),
        };
        let ghost data = frame.data();
        match frame.frame_type {
            FrameType::StillGoodDude => match StillGoodDude::decode(frame.payload) {
                Ok(message) => {
                    proof {
                        law_still_good_roundtrip(message, still_good_in(data));
                    }
                    if !same_bytes(&message.session_id, &saved.session_id) {
                        return self.start_over(None);
                    }
                    assert(message.session_id =~= saved.session_id);
                    let session = ActiveSession {
                        session_id: message.session_id,
                        assigned_ipv4: message.assigned_ipv4,
                        mtu: message.mtu,
                        capabilities: message.capabilities,
                    };
                    self.start_rotation(session, true, None)
                },
                Err(error) => self.fail(HandshakeFault::BadFrame(error)),
            },
            FrameType::AccessDeniedDude => match AccessDeniedDude::decode(frame.payload) {
                Ok(message) => {
                    proof {
                        law_access_denied_roundtrip(message, denied_in(data));
                    }
                    self.start_over(Some(message.reason))
                },
                Err(error) => self.fail(HandshakeFault::BadFrame(error)),
            },
            _ => self.start_over(None),
        }
    }

    fn create_reply(&mut self, reply: Option<Frame>) -> (step: Step)
        ensures
            (final(self).phase, step@) == on_create(reply),
    {
        let frame = match reply {
            Some(frame) => frame,
            None => return self.fail(HandshakeFault::NoReply),
        };
        let ghost data = frame.data();
        match frame.frame_type {
            FrameType::AllGoodDude => match AllGoodDude::decode(frame.payload) {
                Ok(message) => {
                    proof {
                        law_all_good_roundtrip(message, all_good_in(data));
                    }
                    let session = ActiveSession {
                        session_id: message.session_id,
                        assigned_ipv4: message.assigned_ipv4,
                        mtu: message.mtu,
                        capabilities: message.capabilities,
                    };
                    let save = SavedSession { session_id: message.session_id, resume_token: message.server_nonce };
                    self.start_rotation(session, false, Some(save))
                },
                Err(error) => self.fail(HandshakeFault::BadFrame(error)),
            },
            FrameType::AccessDeniedDude => match AccessDeniedDude::decode(frame.payload) {
                Ok(message) => {
                    proof {
                        law_access_denied_roundtrip(message, denied_in(data));
                    }
                    self.fail(HandshakeFault::Denied(message.reason))
                },
                Err(error) => self.fail(HandshakeFault::BadFrame(error)),
            },
            other => self.fail(HandshakeFault::Unexpected(other)),
        }
    }

    /// A frame has come, or none in the time given.
    pub fn on_reply(&mut self, reply: Option<Frame>) -> (step: Step)
        ensures
            (final(self).phase, step@) == after_reply(old(self).phase, reply),
    {
        match self.phase {
            Phase::Resuming(saved) => self.resume_reply(saved, reply),
            Phase::Creating => self.create_reply(reply),
            Phase::Rotating { session, resumed } => {
                let token = match reply {
                    Some(frame) => read_token(frame.payload, session.session_id),
                    None => None,
                };
                match token {
                    Some(nonce) => {
                        let mut step = go(Next::Wait(SHORT_TIMEOUT_MS));
                        step.save = Some(SavedSession { session_id: session.session_id, resume_token: nonce });
                        let confirm = Rekey::token(session.session_id, nonce);
                        step.send = Some(plain_frame(FrameType::Rekey, 3, confirm.encode()));
                        self.take(Phase::Confirming { session, resumed }, step)
                    },
                    None => self.come_up(session, resumed),
                }
            },
            Phase::Confirming { session, resumed } => {
                let token = match reply {
                    Some(frame) => read_token(frame.payload, session.session_id),
                    None => None,
                };
                let mut step = self.come_up(session, resumed);
                if let Some(nonce) = token {
                    step.save = Some(SavedSession { session_id: session.session_id, resume_token: nonce });
                }
                step
            },
            Phase::NeedToken => go(Next::NeedToken),
            Phase::Over => go(Next::Failed(HandshakeFault::Finished)),
        }
    }

    /// The frame of the last step could not be sent.
    pub fn on_send_failure(&mut self) -> (step: Step)
        ensures
            (final(self).phase, step@) == after_send_failure(old(self).phase),
    {
        match self.phase {
            Phase::Resuming(_) => self.fail(HandshakeFault::NotSent),
            Phase::Creating => self.fail(HandshakeFault::NotSent),
            Phase::Rotating { session, resumed } => self.come_up(session, resumed),
            Phase::Confirming { .. } => go(Next::Wait(SHORT_TIMEOUT_MS)),
            Phase::NeedToken => go(Next::NeedToken),
            Phase::Over => go(Next::Failed(HandshakeFault::Finished)),
        }
    }
}

// ---------------------------------------------------------------------------
// Laws
// ---------------------------------------------------------------------------

/// Once a session is there, no answer and no failure takes it away: the
/// handshake waits on with it, or is up with it.
pub proof fn law_session_stays(session: ActiveSession, resumed: bool, phase: Phase, reply: Option<Frame>)
    requires
        phase == (Phase::Rotating { session, resumed }) || phase == (Phase::Confirming { session, resumed }),
    ensures
        ({
            let (now, step) = after_reply(phase, reply);
            ||| step.next == (Next::Up { session, resumed })
            ||| step.next is Wait && now == (Phase::Confirming { session, resumed })
        }),
        ({
            let (now, step) = after_send_failure(phase);
            ||| step.next == (Next::Up { session, resumed })
            ||| step.next is Wait && now == phase
        }),
{
}

/// How many answers a handshake can still take.
pub open spec fn answers_left(phase: Phase) -> nat {
    match phase {
        Phase::Resuming(_) => 5,
        Phase::NeedToken => 4,
        Phase::Creating => 3,
        Phase::Rotating { .. } => 2,
        Phase::Confirming { .. } => 1,
        Phase::Over => 0,
    }
}

/// Every answer that is waited for brings the handshake nearer its end, and
/// at the end the session is up or the handshake has failed.
pub proof fn law_handshake_ends(phase: Phase, reply: Option<Frame>)
    requires
        !(phase is NeedToken) && !(phase is Over),
    ensures
        answers_left(after_reply(phase, reply).0) < answers_left(phase),
        (after_reply(phase, reply).0 is Over) == (after_reply(phase, reply).1.next is Up || after_reply(
            phase,
            reply,
        ).1.next is Failed),
{
}

/// A session that the server hands out is the one that the client keeps and
/// comes up with.
pub proof fn law_new_session_is_kept(m: AllGoodDude, frame: Frame)
    requires
        frame.frame_type == FrameType::AllGoodDude,
        frame.data() == m.wire(),
    ensures
        on_create(Some(frame)) == rotate(
            ActiveSession {
                session_id: m.session_id,
                assigned_ipv4: m.assigned_ipv4,
                mtu: m.mtu,
                capabilities: m.capabilities,
            },
            false,
            Some(SavedSession { session_id: m.session_id, resume_token: m.server_nonce }),
        ),
{
    law_all_good_roundtrip(m, all_good_in(frame.data()));
}

/// A resume token that the server offers is kept, and what the client
/// confirms is that token for that session.
pub proof fn law_offer_is_confirmed(
    session: ActiveSession,
    resumed: bool,
    nonce: [u8; SERVER_NONCE_SIZE],
    frame: Frame,
)
    requires
        frame.data() == (Rekey::Token { session_id: session.session_id, nonce }).wire(),
    ensures
        on_token(session, resumed, Some(frame)).1.save == Some(
            SavedSession { session_id: session.session_id, resume_token: nonce },
        ),
        on_token(session, resumed, Some(frame)).1.send == Some(
            frame_wire(FrameType::Rekey, 3, (Rekey::Token { session_id: session.session_id, nonce }).wire()),
        ),
{
    law_rekey_roundtrip(Rekey::Token { session_id: session.session_id, nonce }, rekey_in(frame.data()));
}

/// A client with a saved session comes back with it, at frame 1, and waits
/// two seconds; one without asks for the subscription token first.
pub proof fn law_handshake_begins(saved: Option<SavedSession>, handshake: Handshake, step: Step, m: BackAgainDude)
    requires
        call_ensures(Handshake::begin, (saved,), (handshake, step)),
        saved matches Some(saved) ==> m.session_id == saved.session_id && m.resume_token == saved.resume_token,
    ensures
        !step.forget && step.denied is None && step.save is None,
        saved is Some ==> {
            &&& handshake.phase == Phase::Resuming(saved->0)
            &&& step@.send == Some(frame_wire(FrameType::BackAgainDude, 1, m.wire()))
            &&& step.next == Next::Wait(2_000)
        },
        saved is None ==> {
            &&& handshake.phase == Phase::NeedToken
            &&& step@.send is None
            &&& step.next == Next::NeedToken
        },
{
}

/// A client that asks for a session greets with its token, at frame 1, with
/// all that it can do, and waits five seconds.
pub proof fn law_asking(handshake: &mut Handshake, token: Vec<u8>, step: Step)
    requires
        call_ensures(Handshake::ask, (handshake, token), step),
        old(handshake).phase is NeedToken,
        token@.len() <= 2048,
    ensures
        final(handshake).phase is Creating,
        step.next == Next::Wait(5_000),
        !step.forget && step.save is None,
        exists|m: WhatsUpDude|
            m.protocol_version == 1 && m.client_version == 1 && m.capabilities == 31 && m.token() == token@
                && step@.send == Some(frame_wire(FrameType::WhatsUpDude, 1, #[trigger] m.wire())),
{
    let bytes = step@.send->0;
    let m = choose|m: WhatsUpDude|
        m.protocol_version == PROTOCOL_VERSION && m.client_version == CLIENT_VERSION && m.capabilities
            == CLIENT_CAPABILITIES && m.token() == token@ && bytes == frame_wire(
            FrameType::WhatsUpDude,
            1,
            #[trigger] m.wire(),
        );
    assert(step@.send == Some(frame_wire(FrameType::WhatsUpDude, 1, m.wire())));
}

/// A saved session that the server still has is taken up again with the
/// address that the server says, and a new token is asked for at frame 2. The
/// file stays as it is until that token comes.
pub proof fn law_saved_session_is_taken_up(
    handshake: &mut Handshake,
    reply: Option<Frame>,
    step: Step,
    saved: SavedSession,
    m: StillGoodDude,
)
    requires
        call_ensures(Handshake::on_reply, (handshake, reply), step),
        old(handshake).phase == Phase::Resuming(saved),
        reply matches Some(frame) && frame.frame_type == FrameType::StillGoodDude && frame.data() == m.wire(),
    ensures
        m.session_id == saved.session_id ==> {
            let session = ActiveSession {
                session_id: m.session_id,
                assigned_ipv4: m.assigned_ipv4,
                mtu: m.mtu,
                capabilities: m.capabilities,
            };
            &&& final(handshake).phase == (Phase::Rotating { session, resumed: true })
            &&& step@.send == Some(
                frame_wire(FrameType::Rekey, 2, (Rekey::Request { session_id: m.session_id }).wire()),
            )
            &&& !step.forget && step.save is None && !step.must_save
            &&& step.next == Next::Wait(2_000)
        },
        m.session_id != saved.session_id ==> final(handshake).phase is NeedToken && step.forget && step.next
            == Next::NeedToken,
{
    law_still_good_roundtrip(m, still_good_in(reply->0.data()));
}

/// A saved session that the server refuses, or that nobody answers for, is
/// forgotten, and a new one is asked for.
pub proof fn law_lost_session_is_forgotten(
    handshake: &mut Handshake,
    reply: Option<Frame>,
    step: Step,
    saved: SavedSession,
    m: AccessDeniedDude,
)
    requires
        call_ensures(Handshake::on_reply, (handshake, reply), step),
        old(handshake).phase == Phase::Resuming(saved),
        reply matches Some(frame) ==> frame.frame_type != FrameType::StillGoodDude && (frame.frame_type
            == FrameType::AccessDeniedDude ==> frame.data() == m.wire()),
    ensures
        final(handshake).phase is NeedToken,
        step.forget,
        step.save is None && step@.send is None,
        step.next == Next::NeedToken,
        step.denied == (if reply is Some && reply->0.frame_type == FrameType::AccessDeniedDude {
            Some(m.reason)
        } else {
            None
        }),
{
    law_access_denied_roundtrip(m, denied_in(reply->0.data()));
}

/// A new session is written to the file before anything else, with the token
/// that resumes it; a client that is refused says why, and one that hears
/// nothing says so.
pub proof fn law_new_session(
    handshake: &mut Handshake,
    reply: Option<Frame>,
    step: Step,
    good: AllGoodDude,
    denied: AccessDeniedDude,
)
    requires
        call_ensures(Handshake::on_reply, (handshake, reply), step),
        old(handshake).phase is Creating,
    ensures
        reply is None ==> step.next == Next::Failed(HandshakeFault::NoReply),
        reply matches Some(frame) ==> {
            &&& frame.frame_type == FrameType::AllGoodDude && frame.data() == good.wire() ==> {
                let session = ActiveSession {
                    session_id: good.session_id,
                    assigned_ipv4: good.assigned_ipv4,
                    mtu: good.mtu,
                    capabilities: good.capabilities,
                };
                &&& final(handshake).phase == (Phase::Rotating { session, resumed: false })
                &&& step.save == Some(
                    SavedSession { session_id: good.session_id, resume_token: good.server_nonce },
                )
                &&& step.must_save && !step.forget
                &&& step@.send == Some(
                    frame_wire(FrameType::Rekey, 2, (Rekey::Request { session_id: good.session_id }).wire()),
                )
                &&& step.next == Next::Wait(2_000)
            }
            &&& frame.frame_type == FrameType::AccessDeniedDude && frame.data() == denied.wire() ==> step.next
                == Next::Failed(HandshakeFault::Denied(denied.reason)) && step.save is None
            &&& frame.frame_type != FrameType::AllGoodDude && frame.frame_type != FrameType::AccessDeniedDude
                ==> step.next == Next::Failed(HandshakeFault::Unexpected(frame.frame_type)) && step.save is None
        },
{
    if let Some(frame) = reply {
        law_all_good_roundtrip(good, all_good_in(frame.data()));
        law_access_denied_roundtrip(denied, denied_in(frame.data()));
    }
}

/// A new resume token is kept and confirmed at frame 3; without one the
/// session is up with the token that it has.
pub proof fn law_token_rotation(
    handshake: &mut Handshake,
    reply: Option<Frame>,
    step: Step,
    session: ActiveSession,
    resumed: bool,
    nonce: [u8; SERVER_NONCE_SIZE],
)
    requires
        call_ensures(Handshake::on_reply, (handshake, reply), step),
        old(handshake).phase == (Phase::Rotating { session, resumed }),
    ensures
        reply is None ==> step.next == (Next::Up { session, resumed }) && step.save is None && step@.send is None,
        reply matches Some(frame) ==> ({
            let token = Rekey::Token { session_id: session.session_id, nonce };
            frame.data() == token.wire() ==> {
                &&& final(handshake).phase == (Phase::Confirming { session, resumed })
                &&& step.save == Some(SavedSession { session_id: session.session_id, resume_token: nonce })
                &&& step@.send == Some(frame_wire(FrameType::Rekey, 3, token.wire()))
                &&& step.next == Next::Wait(2_000)
            }
        }),
        !step.forget,
{
    if let Some(frame) = reply {
        law_rekey_roundtrip(Rekey::Token { session_id: session.session_id, nonce }, rekey_in(frame.data()));
    }
}

/// The session is up after the confirmation, whatever comes of it; a token
/// that comes is kept.
pub proof fn law_session_comes_up(
    handshake: &mut Handshake,
    reply: Option<Frame>,
    step: Step,
    session: ActiveSession,
    resumed: bool,
    nonce: [u8; SERVER_NONCE_SIZE],
)
    requires
        call_ensures(Handshake::on_reply, (handshake, reply), step),
        old(handshake).phase == (Phase::Confirming { session, resumed }),
    ensures
        step.next == (Next::Up { session, resumed }),
        final(handshake).phase is Over,
        !step.forget && step@.send is None,
        reply is None ==> step.save is None,
        reply matches Some(frame) ==> (frame.data() == (Rekey::Token { session_id: session.session_id, nonce }).wire()
            ==> step.save == Some(SavedSession { session_id: session.session_id, resume_token: nonce })),
{
    if let Some(frame) = reply {
        law_rekey_roundtrip(Rekey::Token { session_id: session.session_id, nonce }, rekey_in(frame.data()));
    }
}

/// A session that is there is not lost because a frame could not be sent; a
/// handshake without one is.
pub proof fn law_send_failure(handshake: &mut Handshake, step: Step, session: ActiveSession, resumed: bool)
    requires
        call_ensures(Handshake::on_send_failure, (handshake,), step),
    ensures
        old(handshake).phase is Resuming || old(handshake).phase is Creating ==> step.next == Next::Failed(
            HandshakeFault::NotSent,
        ),
        old(handshake).phase == (Phase::Rotating { session, resumed }) ==> step.next == (Next::Up { session, resumed }),
        old(handshake).phase == (Phase::Confirming { session, resumed }) ==> step.next == Next::Wait(2_000)
            && final(handshake).phase == old(handshake).phase,
        !step.forget && step.save is None,
{
}

} // verus!
