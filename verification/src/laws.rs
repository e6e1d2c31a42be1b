//! What the client and the server make of each other's frames.

use vstd::prelude::*;

use crate::auth::keys::VerifyingKey;
use crate::auth::token::SubscriptionClaims;
use crate::client::session::{back_again_frame, on_resume, rotate, ActiveSession};
use crate::client::session_file::SavedSession;
use crate::client::tunnel::{deed_of, Deed, Tunnel};
use crate::net::PeerAddr;
use crate::protocol::access_denied_dude::DenyReason;
use crate::protocol::back_again_dude::{back_again_in, law_back_again_roundtrip, BackAgainDude};
use crate::protocol::close::close_in;
use crate::protocol::data::{data_in, law_data_roundtrip, Data, MAX_DATA_PAYLOAD_SIZE};
use crate::protocol::frame::{frame_wire, next, Frame, FrameType};
use crate::protocol::ping::ping_in;
use crate::protocol::rekey::rekey_in;
use crate::protocol::still_good_dude::{law_still_good_roundtrip, still_good_in, StillGoodDude};
use crate::protocol::whats_up_dude::{whats_up_fault, whats_up_in};
use crate::server::handler::{admission, carried, comes_back, denied, forwards, handles, source_ok, to_store, Effect};
use crate::server::session::{
    in_window, ClientLink, Fresh, Session, SessionId, Sessions, SEQUENCE_REORDER_WINDOW,
};
use crate::tun::packet::{source_of, PAYPHONE_MTU};
use crate::wire::{be_bytes, lemma_be_bytes_len, lemma_be_range, lemma_value_of_bytes};

verus! {

/// The frame that some bytes were encoded from has the type, the number and
/// the payload that they were given.
pub proof fn law_plain_frame_reads_back(frame: Frame, frame_type: FrameType, sequence: u64, payload: Seq<u8>)
    requires
        frame.wire() == frame_wire(frame_type, sequence, payload),
    ensures
        frame.frame_type == frame_type,
        frame.sequence == sequence,
        frame.data() == payload,
{
    lemma_be_range();
    lemma_be_bytes_len(frame.flags as nat, 2);
    lemma_be_bytes_len(0, 2);
    lemma_be_bytes_len(frame.data().len(), 4);
    lemma_be_bytes_len(payload.len(), 4);
    lemma_be_bytes_len(frame.sequence as nat, 8);
    lemma_be_bytes_len(sequence as nat, 8);
    lemma_value_of_bytes(frame.sequence as nat, 8);
    lemma_value_of_bytes(sequence as nat, 8);
    let a = frame.wire();
    let b = frame_wire(frame_type, sequence, payload);
    assert(a[1] == frame.frame_type.code() && b[1] == frame_type.code());
    assert(a.skip(16) =~= frame.data());
    assert(b.skip(16) =~= payload);
    assert(a.subrange(8, 16) =~= be_bytes(frame.sequence as nat, 8));
    assert(b.subrange(8, 16) =~= be_bytes(sequence as nat, 8));
}

/// A packet that the client takes from its device reaches the server's device
/// unchanged, where the session is the client's, has bandwidth left and may
/// send from that address.
pub proof fn law_packet_reaches_server(
    before: Sessions,
    after: Sessions,
    done: Seq<Effect>,
    address: PeerAddr,
    m: Data,
    frame: Frame,
    sequence: u64,
    now: u64,
    now_unix: u64,
)
    requires
        frame.wire() == frame_wire(FrameType::Data, sequence, m.wire()),
        m.packet().len() <= MAX_DATA_PAYLOAD_SIZE,
        forwards(before, after, done, address, frame.sequence, frame.data(), now, now_unix),
        before.contains_key(m.session_id),
        before[m.session_id].client_address == address,
        now_unix < before[m.session_id].subscription_expires_at,
        in_window(before[m.session_id].last_sequence, sequence),
        before[m.session_id].rate.taking(m.packet().len() as u64, now).0,
        source_ok(m.packet(), before[m.session_id]),
    ensures
        done == seq![Effect::Packet(m.packet())],
{
    law_plain_frame_reads_back(frame, FrameType::Data, sequence, m.wire());
    law_data_roundtrip(m, data_in(frame.data()));
}

/// A packet that the server sends to a session reaches the device of the
/// client with that session unchanged.
pub proof fn law_packet_reaches_client(
    session: Session,
    packet_id: u64,
    packet: Seq<u8>,
    m: Data,
    frame: Frame,
    tunnel: Tunnel,
)
    requires
        carried(session, packet_id, packet) == Effect::Send(session.link, frame.wire()),
        m.session_id == session.id,
        m.packet_id == packet_id,
        m.packet() == packet,
        packet.len() <= MAX_DATA_PAYLOAD_SIZE,
        tunnel.session_id == session.id,
    ensures
        deed_of(tunnel, Some(frame)) == Deed::Write(packet),
{
    let payload = session.id@ + be_bytes(packet_id as nat, 8) + packet;
    assert(m.wire() =~= payload);
    law_plain_frame_reads_back(frame, FrameType::Data, packet_id, payload);
    law_data_roundtrip(m, data_in(frame.data()));
}

/// Only an honest packet reaches the server's device: one from where its
/// session is, of a subscription that has not run out, with the session's own
/// address as its source.
pub proof fn law_only_honest_packets(
    before: Sessions,
    after: Sessions,
    done: Seq<Effect>,
    keys: Map<u32, VerifyingKey>,
    revoked: Set<Seq<u8>>,
    link: ClientLink,
    address: PeerAddr,
    frame: Frame,
    now: u64,
    now_unix: u64,
    fresh: Fresh,
    packet: Seq<u8>,
)
    requires
        handles(before, after, done, keys, revoked, link, address, frame, now, now_unix, fresh),
        done.contains(Effect::Packet(packet)),
    ensures
        frame.frame_type == FrameType::Data,
        ({
            let id = data_in(frame.data()).session_id;
            &&& before.contains_key(id)
            &&& before[id].client_address == address
            &&& now_unix < before[id].subscription_expires_at
            &&& source_of(packet) matches Some(source) ==> source == before[id].ipv4@
        }),
{
    let k = done.index_of(Effect::Packet(packet));
    assert(done[k] == Effect::Packet(packet));
}

/// A frame from elsewhere leaves a session as it is, unless it greets with a
/// subscription or comes back with a token of that session.
pub proof fn law_strangers_change_nothing(
    before: Sessions,
    after: Sessions,
    done: Seq<Effect>,
    keys: Map<u32, VerifyingKey>,
    revoked: Set<Seq<u8>>,
    link: ClientLink,
    address: PeerAddr,
    frame: Frame,
    now: u64,
    now_unix: u64,
    fresh: Fresh,
    id: SessionId,
)
    requires
        handles(before, after, done, keys, revoked, link, address, frame, now, now_unix, fresh),
        frame.frame_type != FrameType::WhatsUpDude,
        before.contains_key(id),
        before[id].client_address != address,
        frame.frame_type == FrameType::BackAgainDude && back_again_in(frame.data()).session_id == id
            ==> !before[id].has_token(back_again_in(frame.data()).resume_token),
    ensures
        after.contains_key(id),
        after[id] == before[id],
{
}

/// The session that a frame of a running session names.
pub open spec fn named_session(frame: Frame) -> Option<SessionId> {
    match frame.frame_type {
        FrameType::Data => Some(data_in(frame.data()).session_id),
        FrameType::Ping => Some(ping_in(frame.data()).session_id),
        FrameType::Rekey => Some(rekey_in(frame.data()).id()),
        FrameType::Close => Some(close_in(frame.data()).session_id),
        _ => None,
    }
}

/// A frame too far behind the highest sequence number of its session is
/// dropped: it changes nothing and is not answered.
pub proof fn law_late_frames_are_dropped(
    before: Sessions,
    after: Sessions,
    done: Seq<Effect>,
    keys: Map<u32, VerifyingKey>,
    revoked: Set<Seq<u8>>,
    link: ClientLink,
    address: PeerAddr,
    frame: Frame,
    now: u64,
    now_unix: u64,
    fresh: Fresh,
    id: SessionId,
)
    requires
        handles(before, after, done, keys, revoked, link, address, frame, now, now_unix, fresh),
        named_session(frame) == Some(id),
        before.contains_key(id),
        before[id].last_sequence >= frame.sequence + SEQUENCE_REORDER_WINDOW,
    ensures
        after == before,
        done.len() == 0,
{
}

/// A frame that leaves nothing to store, and does not greet, ends no session
/// and opens none; of a session it changes at most the sequence number, the
/// time of the last sign of life and the bandwidth that is left.
pub proof fn law_what_matters_is_stored(
    before: Sessions,
    after: Sessions,
    done: Seq<Effect>,
    keys: Map<u32, VerifyingKey>,
    revoked: Set<Seq<u8>>,
    link: ClientLink,
    address: PeerAddr,
    frame: Frame,
    now: u64,
    now_unix: u64,
    fresh: Fresh,
)
    requires
        handles(before, after, done, keys, revoked, link, address, frame, now, now_unix, fresh),
        !to_store(before, done, keys, revoked, link, address, frame, now, now_unix),
        frame.frame_type != FrameType::WhatsUpDude,
    ensures
        after.dom() == before.dom(),
        forall|id: SessionId| #[trigger]
            before.contains_key(id) ==> after[id] == (Session {
                last_sequence: after[id].last_sequence,
                last_activity: after[id].last_activity,
                rate: after[id].rate,
                ..before[id]
            }),
{
    assert(after.dom() =~= before.dom());
}

/// A client whose token does not do is told why, gets no session, and changes
/// nobody else's.
pub proof fn law_refusal_is_answered(
    before: Sessions,
    after: Sessions,
    done: Seq<Effect>,
    keys: Map<u32, VerifyingKey>,
    revoked: Set<Seq<u8>>,
    link: ClientLink,
    address: PeerAddr,
    frame: Frame,
    now: u64,
    now_unix: u64,
    fresh: Fresh,
    reason: DenyReason,
    expires_at: u64,
)
    requires
        handles(before, after, done, keys, revoked, link, address, frame, now, now_unix, fresh),
        frame.frame_type == FrameType::WhatsUpDude,
        whats_up_fault(frame.data()) is None,
        admission(keys, revoked, whats_up_in(frame.data()).token(), now_unix) == Err::<SubscriptionClaims, (DenyReason, u64)>(
            (reason, expires_at),
        ),
    ensures
        after == before,
        done == seq![denied(link, frame.sequence, reason, expires_at)],
{
}

/// A client that comes back with a token of its session gets the same session
/// and the same address, wherever it is now.
pub proof fn law_session_is_resumed(
    before: Sessions,
    after: Sessions,
    done: Seq<Effect>,
    link: ClientLink,
    address: PeerAddr,
    saved: SavedSession,
    asked: Frame,
    reply: Frame,
    now: u64,
    now_unix: u64,
)
    requires
        asked.wire() == back_again_frame(saved),
        comes_back(before, after, done, link, address, asked.sequence, asked.data(), now, now_unix),
        before.contains_key(saved.session_id),
        now_unix < before[saved.session_id].subscription_expires_at,
        before[saved.session_id].has_token(saved.resume_token),
        done == seq![Effect::Send(link, reply.wire())],
    ensures
        on_resume(saved, Some(reply)) == rotate(
            ActiveSession {
                session_id: saved.session_id,
                assigned_ipv4: before[saved.session_id].ipv4,
                mtu: PAYPHONE_MTU,
                capabilities: before[saved.session_id].capabilities,
            },
            true,
            None,
        ),
        after.contains_key(saved.session_id),
        after[saved.session_id].ipv4 == before[saved.session_id].ipv4,
        after[saved.session_id].client_address == address,
{
    let m = BackAgainDude { session_id: saved.session_id, resume_token: saved.resume_token };
    law_plain_frame_reads_back(asked, FrameType::BackAgainDude, 1, m.wire());
    law_back_again_roundtrip(m, back_again_in(asked.data()));
    let session = before[saved.session_id];
    let good = StillGoodDude {
        session_id: saved.session_id,
        assigned_ipv4: session.ipv4,
        mtu: PAYPHONE_MTU,
        capabilities: session.capabilities,
    };
    let sent = Effect::Send(link, frame_wire(FrameType::StillGoodDude, next(1), good.wire()));
    assert(done[0] == sent);
    law_plain_frame_reads_back(reply, FrameType::StillGoodDude, next(1), good.wire());
    law_still_good_roundtrip(good, still_good_in(reply.data()));
}

} // verus!
