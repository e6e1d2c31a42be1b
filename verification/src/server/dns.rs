//! The DNS stub on the VPN address: what it forwards, and to whom.

use vstd::prelude::*;

use crate::net::PeerAddr;

verus! {

pub const QUERY_TIMEOUT_MS: u64 = 2_000;

pub const MAX_DNS_MESSAGE: usize = 4096;

/// A DNS header takes this many bytes.
pub const DNS_HEADER: usize = 12;

/// How often the stub tries to bind, and how long it waits in between.
pub const BIND_ATTEMPTS: u32 = 8;

pub const BIND_WAIT_MS: u64 = 50;

/// 1.1.1.1, port 53.
pub fn default_upstream() -> (address: PeerAddr)
    ensures
        address == (PeerAddr::V4 { ip: 0x0101_0101, port: 53 }),
{
    PeerAddr::V4 { ip: 0x0101_0101, port: 53 }
}

/// 8.8.8.8, port 53.
pub fn fallback_upstream() -> (address: PeerAddr)
    ensures
        address == (PeerAddr::V4 { ip: 0x0808_0808, port: 53 }),
{
    PeerAddr::V4 { ip: 0x0808_0808, port: 53 }
}

/// A message with a whole header, not too long, whose response bit is not
/// set.
pub open spec fn is_query(message: Seq<u8>) -> bool {
    DNS_HEADER <= message.len() <= MAX_DNS_MESSAGE && message[2] < 128
}

pub fn looks_like_query(message: &[u8]) -> (yes: bool)
    ensures
        yes == is_query(message@),
{
    message.len() >= DNS_HEADER && message.len() <= MAX_DNS_MESSAGE && message[2] < 128
}

/// What to do next about a query.
#[derive(Clone, Debug, PartialEq, Eq)]
pub enum DnsStep {
    /// Ask this server.
    Ask(PeerAddr),
    /// Send this answer back.
    Answer(Vec<u8>),
    /// Say nothing.
    GiveUp,
}

/// How far a query has come.
#[derive(Clone, Copy, Debug, PartialEq, Eq, Structural)]
pub enum DnsPhase {
    /// The first server was asked.
    Primary,
    /// The second was.
    Fallback,
}

/// An answer is one that holds a header at least.
pub open spec fn is_answer(reply: Option<Seq<u8>>) -> bool {
    reply matches Some(reply) && reply.len() >= DNS_HEADER
}

/// Takes the reply of a server, or that there was none in time. The second
/// server is asked after the first.
pub fn on_reply(phase: DnsPhase, reply: Option<Vec<u8>>) -> (step: DnsStep)
    ensures
        ({
            let bytes = match reply {
                Some(reply) => Some(reply@),
                None => None,
            };
            if is_answer(bytes) {
                step matches DnsStep::Answer(answer) && Some(answer@) == bytes
            } else if phase == DnsPhase::Primary {
                step == DnsStep::Ask(PeerAddr::V4 { ip: 0x0808_0808, port: 53 })
            } else {
                step is GiveUp
            }
        }),
{
    if let Some(reply) = reply {
        if reply.len() >= DNS_HEADER {
            return DnsStep::Answer(reply);
        }
    }
    match phase {
        DnsPhase::Primary => DnsStep::Ask(fallback_upstream()),
        DnsPhase::Fallback => DnsStep::GiveUp,
    }
}

} // verus!
