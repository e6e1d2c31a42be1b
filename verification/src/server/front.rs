//! How a connection to the HTTPS front is taken.

use vstd::prelude::*;

use crate::auth::keys::{VerificationKeyRing, VerifyingKey};
use crate::crypto::ed25519_is_key;
use crate::transport::reality::hello::{client_hello_in, handshake_in, ClientHelloView, ALPN_ACME};
use crate::wire::array_at;

verus! {

/// How often idle sessions are removed.
pub const CLEANUP_INTERVAL_MS: u64 = 5_000;

/// How many frames wait for a slow connection.
pub const OUTGOING_FRAMES: usize = 1024;

/// Who looks at a connection first.
#[derive(Debug, Clone, Copy, PartialEq, Eq, Structural)]
pub enum FrontRoute {
    /// REALITY judges the hello.
    Reality,
    /// The hello is read for a challenge of the certificate authority.
    Peek,
    /// The server's own TLS.
    Plain,
}

pub fn front_route(reality: bool, challenges: bool) -> (route: FrontRoute)
    ensures
        route == (if reality {
            FrontRoute::Reality
        } else if challenges {
            FrontRoute::Peek
        } else {
            FrontRoute::Plain
        }),
{
    if reality {
        FrontRoute::Reality
    } else if challenges {
        FrontRoute::Peek
    } else {
        FrontRoute::Plain
    }
}

/// Whether the hello in a record is a challenge of the certificate authority.
pub open spec fn is_challenge(record: Seq<u8>) -> bool {
    &&& handshake_in(record) matches Some(handshake)
    &&& client_hello_in(handshake) matches Some(hello)
    &&& hello.alpn.contains(ALPN_ACME@)
}

pub fn wants_challenge(record: &[u8]) -> (yes: bool)
    ensures
        yes == is_challenge(record@),
{
    match ClientHelloView::parse(record) {
        Some(view) => view.has_acme_alpn(),
        None => false,
    }
}

/// What becomes of a connection that stays local.
#[derive(Debug, Clone, Copy, PartialEq, Eq, Structural)]
pub struct LocalPlan {
    /// The handshake is that of the challenge, not the server's own.
    pub challenge: bool,
    /// The handshake is all there is.
    pub close: bool,
}

pub fn local_plan(acme: bool, challenges: bool) -> (plan: LocalPlan)
    ensures
        plan == (LocalPlan { challenge: acme && challenges, close: acme }),
{
    LocalPlan { challenge: acme && challenges, close: acme }
}

#[derive(Debug, Clone, Copy, PartialEq, Eq, Structural)]
pub enum KeyFileError {
    /// subscription public key must be 32 bytes
    Length,
    /// Not a point of the curve.
    NotAKey,
}

/// A ring with one key, as number 1.
pub open spec fn holds_only(ring: Map<u32, VerifyingKey>, bytes: Seq<u8>) -> bool {
    ring.dom() == set![1u32] && ring[1].bytes@ == bytes
}

/// The key ring of a server: the public key in a file, as number 1.
pub fn load_key_ring(bytes: &[u8]) -> (ring: Result<VerificationKeyRing, KeyFileError>)
    ensures
        match ring {
            Ok(ring) => bytes@.len() == 32 && ed25519_is_key(bytes@) && holds_only(ring@, bytes@),
            Err(error) => if bytes@.len() != 32 {
                error == KeyFileError::Length
            } else {
                !ed25519_is_key(bytes@) && error == KeyFileError::NotAKey
            },
        },
{
    if bytes.len() != 32 {
        return Err(KeyFileError::Length);
    }
    let array: [u8; 32] = array_at(bytes, 0);
    assert(bytes@.subrange(0, 32) =~= bytes@);
    match VerifyingKey::from_bytes(&array) {
        None => Err(KeyFileError::NotAKey),
        Some(key) => {
            let mut ring = VerificationKeyRing::new();
            ring.insert(1, key);
            assert(ring@.dom() =~= set![1u32]);
            Ok(ring)
        },
    }
}

} // verus!
