//! Random bytes, from the thread's generator and from the operating system.

use rand::RngCore;
use rand_core::{OsRng, TryRngCore};
use vstd::prelude::*;

verus! {

/// `rand::rng().fill_bytes`: random bytes. Nothing is promised of their
/// values.
#[verifier::external_body]
pub(crate) fn random_array<const N: usize>() -> (out: [u8; N]) {
    let mut out = [0u8; N];
    rand::rng().fill_bytes(&mut out);
    out
}

/// `OsRng.try_fill_bytes`: random bytes from the operating system, `None`
/// where it has none to give. Nothing is promised of their values.
#[verifier::external_body]
pub(crate) fn os_random_array<const N: usize>() -> (out: Option<[u8; N]>) {
    let mut out = [0u8; N];
    OsRng.try_fill_bytes(&mut out).ok().map(|_| out)
}

} // verus!
