//! The numbers by which QUIC is tuned for a long-lived tunnel, and the rule
//! for its datagrams.

use vstd::prelude::*;

verus! {

/// A quiet tunnel lives this long, in milliseconds.
pub const MAX_IDLE_MS: u64 = 180_000;

pub const KEEP_ALIVE_MS: u64 = 3_000;

/// The round trip that is taken for granted before the first sample.
pub const INITIAL_RTT_MS: u64 = 50;

/// Probe timeouts before congestion counts as persistent.
pub const PERSISTENT_CONGESTION_THRESHOLD: u32 = 6;

/// Packets out of order before one counts as lost.
pub const PACKET_THRESHOLD: u32 = 4;

pub const MTU_DISCOVERY_INTERVAL_MS: u64 = 20_000;

pub const BLACK_HOLE_COOLDOWN_MS: u64 = 10_000;

pub const MTU_UPPER_BOUND: u16 = 1452;

pub const ACK_ELICITING_THRESHOLD: u32 = 2;

pub const MAX_ACK_DELAY_MS: u64 = 10;

pub const DATAGRAM_BUFFER: usize = 8 * 1024 * 1024;

/// Whether a frame goes into a datagram: where there is no limit yet, it is
/// tried.
pub fn datagram_fits(max: Option<usize>, len: usize) -> (fits: bool)
    ensures
        fits == (max matches Some(max) ==> len <= max),
{
    match max {
        Some(max) => len <= max,
        None => true,
    }
}

} // verus!
