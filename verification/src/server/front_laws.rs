//! Who is let in by the front, and which names are looked up.

use vstd::prelude::*;

use super::dns::{default_upstream, fallback_upstream, looks_like_query, on_reply, DnsPhase, DnsStep};
use super::front::{
    front_route, load_key_ring, local_plan, wants_challenge, FrontRoute, KeyFileError, LocalPlan,
};
use crate::auth::keys::VerificationKeyRing;
use crate::crypto::ed25519_is_key;
use crate::net::PeerAddr;
use crate::transport::reality::hello::{client_hello_in, handshake_in};

verus! {

/// A query has a header of twelve bytes, is no longer than 4096 and does not
/// have the bit of an answer.
pub proof fn law_query(message: &[u8], yes: bool)
    requires
        call_ensures(looks_like_query, (message,), yes),
    ensures
        yes <==> 12 <= message@.len() <= 4096 && message@[2] & 0x80 == 0,
{
    if message@.len() >= 12 {
        let b = message@[2];
        assert(b < 128 <==> b & 0x80 == 0) by (bit_vector);
    }
}

/// An answer goes back as it came, from either server. Without one the second
/// server is asked, once, and then nobody.
pub proof fn law_lookup(
    phase: DnsPhase,
    reply: Vec<u8>,
    step: DnsStep,
    silence: DnsStep,
    first: PeerAddr,
    second: PeerAddr,
)
    requires
        call_ensures(on_reply, (phase, Some(reply)), step),
        call_ensures(on_reply, (phase, None::<Vec<u8>>), silence),
        call_ensures(default_upstream, (), first),
        call_ensures(fallback_upstream, (), second),
    ensures
        reply@.len() >= 12 ==> (step matches DnsStep::Answer(answer) && answer@ == reply@),
        reply@.len() < 12 ==> (step is GiveUp <==> silence is GiveUp) && (step is Ask ==> step == silence),
        phase == DnsPhase::Primary ==> silence == DnsStep::Ask(second),
        phase == DnsPhase::Fallback ==> silence is GiveUp,
        first != second,
        first == (PeerAddr::V4 { ip: 0x0101_0101, port: 53 }),
        second == (PeerAddr::V4 { ip: 0x0808_0808, port: 53 }),
{
}

/// REALITY goes first where it is on; else a hello is looked at only where
/// challenges are answered. A challenge is answered by itself and then the
/// connection is closed; no other is.
pub proof fn law_routes(reality: bool, challenges: bool, route: FrontRoute, acme: bool, plan: LocalPlan)
    requires
        call_ensures(front_route, (reality, challenges), route),
        call_ensures(local_plan, (acme, challenges), plan),
    ensures
        route == FrontRoute::Reality <==> reality,
        route == FrontRoute::Peek <==> !reality && challenges,
        plan.close <==> acme,
        plan.challenge <==> acme && challenges,
{
}

/// A challenge is a hello that offers `acme-tls/1`.
pub proof fn law_challenge(record: &[u8], yes: bool)
    requires
        call_ensures(wants_challenge, (record,), yes),
    ensures
        handshake_in(record@) is None ==> !yes,
        handshake_in(record@) matches Some(handshake) ==> {
            &&& client_hello_in(handshake) is None ==> !yes
            &&& client_hello_in(handshake) matches Some(hello) ==> (yes <==> hello.alpn.contains(
                seq![97u8, 99, 109, 101, 45, 116, 108, 115, 47, 49],
            ))
        },
{
    let name = crate::transport::reality::hello::ALPN_ACME;
    assert(name@ =~= seq![97u8, 99, 109, 101, 45, 116, 108, 115, 47, 49]);
}

/// A key file has 32 bytes that are a key, which goes in as number 1, alone.
pub proof fn law_key_file(bytes: &[u8], ring: Result<VerificationKeyRing, KeyFileError>, id: u32)
    requires
        call_ensures(load_key_ring, (bytes,), ring),
    ensures
        ring is Ok <==> bytes@.len() == 32 && ed25519_is_key(bytes@),
        ring == Err::<VerificationKeyRing, KeyFileError>(KeyFileError::Length) <==> bytes@.len() != 32,
        ring matches Ok(ring) ==> (ring@.dom().contains(id) <==> id == 1),
        ring matches Ok(ring) ==> ring@[1].bytes@ == bytes@,
{
    if let Ok(ring) = ring {
        assert(ring@.dom().contains(id) <==> set![1u32].contains(id));
    }
}

} // verus!
