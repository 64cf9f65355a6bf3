//! Wall-clock access.

use vstd::prelude::*;

verus! {

/// Milliseconds since the Unix epoch (`SystemTime::now`), or 0 when the
/// system clock reads before the epoch. Nothing is promised about the value:
/// it is whatever the clock says at the time of the call.
#[verifier::external_body]
pub(crate) fn now_ms() -> u64 {
    std::time::SystemTime::now()
        .duration_since(std::time::UNIX_EPOCH)
        .map(|d| d.as_millis() as u64)
        .unwrap_or(0)
}

} // verus!
