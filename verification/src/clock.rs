//! Wall-clock readings used to stamp user activity.

use vstd::prelude::*;

verus! {

/// Milliseconds since the Unix epoch, read from `std::time::SystemTime::now`.
/// Nothing is promised of the value: it depends on the machine's clock, and a
/// clock set before the epoch reads as zero.
#[verifier::external_body]
pub(crate) fn now_millis() -> (t: u64) {
    std::time::SystemTime::now()
        .duration_since(std::time::UNIX_EPOCH)
        .unwrap_or_default()
        .as_millis() as u64
}

/// Nanoseconds since the Unix epoch, read from `std::time::SystemTime::now`.
/// Nothing is promised of the value: it depends on the machine's clock, and a
/// clock set before the epoch reads as zero.
#[verifier::external_body]
pub(crate) fn now_nanos() -> (t: u128) {
    std::time::SystemTime::now()
        .duration_since(std::time::UNIX_EPOCH)
        .unwrap_or_default()
        .as_nanos()
}

} // verus!
