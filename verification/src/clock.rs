//! The time of day.

use std::time::{SystemTime, UNIX_EPOCH};
use vstd::prelude::*;

verus! {

/// `SystemTime::now`, in whole milliseconds since 1970 (zero before that).
/// Nothing is promised of the value.
#[verifier::external_body]
pub(crate) fn unix_millis() -> (now: u64) {
    SystemTime::now().duration_since(UNIX_EPOCH).unwrap_or_default().as_millis() as u64
}

/// The same in whole seconds.
pub(crate) fn unix_seconds() -> (now: u64)
    ensures
        exists|millis: u64| now == #[trigger] seconds_of(millis),
{
    let millis: u64 = unix_millis();
    let now: u64 = millis / 1000;
    assert(now == seconds_of(millis));
    now
}

pub(crate) open spec fn seconds_of(millis: u64) -> u64 {
    millis / 1000
}

} // verus!
